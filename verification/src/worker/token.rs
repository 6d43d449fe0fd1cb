//! Spending tokens before kernels are launched, and reporting how long a batch
//! took.

use vstd::prelude::*;

use crate::access::{Access, Step};
use crate::shmem::{LocalCell, STATE_IDLE, STATE_MEASURING, STATE_RUNNING};
use crate::worker::client::SchedulerClient;
use crate::worker::{RuntimeCall, WorkerAction};

verus! {

/// What the threads of a worker share, under a lock.
#[derive(Debug, Clone, Copy, PartialEq, Eq, Structural)]
pub struct InnerLock {
    pub internal_stream: u64,
    pub start_event: u64,
    pub end_event: u64,
    pub tracking_event: u64,
    /// Whether the worker has taken a token of the current batch.
    pub batch_active: bool,
    pub current_batch_id: u64,
    /// The stream of the latest kernel.
    pub last_user_stream: u64,
    /// When the worker joined the batch; 0 when it has not.
    pub start_time_us: u64,
}

impl InnerLock {
    /// The worker outside of any batch.
    pub open spec fn left_batch(self) -> InnerLock {
        InnerLock { batch_active: false, start_time_us: 0, ..self }
    }

    /// The worker once it knows which batch is current: it leaves a batch that
    /// is over.
    pub open spec fn seen_batch(self, batch: u64) -> InnerLock {
        if self.batch_active && batch != self.current_batch_id {
            self.left_batch()
        } else {
            self
        }
    }
}

impl SchedulerClient {
    /// The state of a worker that has not launched anything, given a stream and
    /// three events of its own.
    pub fn create_inner_lock(
        internal_stream: u64,
        start_event: u64,
        end_event: u64,
        tracking_event: u64,
    ) -> (lock: InnerLock)
        ensures
            lock == (InnerLock {
                internal_stream,
                start_event,
                end_event,
                tracking_event,
                batch_active: false,
                current_batch_id: 0,
                last_user_stream: 0,
                start_time_us: 0,
            }),
            lock == InnerLock::fresh(internal_stream, start_event, end_event, tracking_event),
    {
        InnerLock {
            internal_stream,
            start_event,
            end_event,
            tracking_event,
            batch_active: false,
            current_batch_id: 0,
            last_user_stream: 0,
            start_time_us: 0,
        }
    }
}

/// Where the report of a batch stands.
#[derive(Debug, Clone, Copy, PartialEq, Eq, Structural)]
pub enum MeasurePhase {
    QueryCapture,
    /// Events cannot be used: wait for the device and take the time.
    SyncDevice,
    ReadClock,
    RecordTracking,
    WaitTracking,
    RecordEnd,
    SyncStream,
    ReadElapsed,
    StoreDuration(u64),
    StoreBatch,
    Count,
    Finished,
}

impl MeasurePhase {
    /// A report of the batch that the worker has joined. Without a stream there
    /// is nothing to record events on.
    pub open spec fn initial(lock: InnerLock) -> MeasurePhase {
        if lock.last_user_stream != 0 {
            MeasurePhase::QueryCapture
        } else {
            MeasurePhase::SyncDevice
        }
    }

    /// What the report asks for.
    pub open spec fn asks(self, lock: InnerLock, slot: usize) -> Step<WorkerAction, ()> {
        match self {
            MeasurePhase::QueryCapture => Step::Do(
                WorkerAction::Runtime(RuntimeCall::CaptureStatus(lock.last_user_stream)),
            ),
            MeasurePhase::SyncDevice => Step::Do(
                WorkerAction::Runtime(RuntimeCall::DeviceSynchronize),
            ),
            MeasurePhase::ReadClock => Step::Do(WorkerAction::WallClock),
            MeasurePhase::RecordTracking => Step::Do(
                WorkerAction::Runtime(
                    RuntimeCall::EventRecord(lock.tracking_event, lock.last_user_stream),
                ),
            ),
            MeasurePhase::WaitTracking => Step::Do(
                WorkerAction::Runtime(
                    RuntimeCall::StreamWaitEvent(lock.internal_stream, lock.tracking_event),
                ),
            ),
            MeasurePhase::RecordEnd => Step::Do(
                WorkerAction::Runtime(
                    RuntimeCall::EventRecord(lock.end_event, lock.internal_stream),
                ),
            ),
            MeasurePhase::SyncStream => Step::Do(
                WorkerAction::Runtime(RuntimeCall::StreamSynchronize(lock.internal_stream)),
            ),
            MeasurePhase::ReadElapsed => Step::Do(
                WorkerAction::Runtime(RuntimeCall::ElapsedUs(lock.start_event, lock.end_event)),
            ),
            MeasurePhase::StoreDuration(duration) => Step::Do(
                WorkerAction::Memory(Access::Store(LocalCell::ReportDuration(slot), duration)),
            ),
            MeasurePhase::StoreBatch => Step::Do(
                WorkerAction::Memory(
                    Access::Store(LocalCell::ReportBatchId(slot), lock.current_batch_id),
                ),
            ),
            MeasurePhase::Count => Step::Do(
                WorkerAction::Memory(Access::FetchAdd(LocalCell::ReportedCount, 1)),
            ),
            MeasurePhase::Finished => Step::Done(()),
        }
    }

    /// The report once it has the reply to what it asked.
    pub open spec fn next(self, lock: InnerLock, reply: u64) -> MeasurePhase {
        match self {
            MeasurePhase::QueryCapture => if reply != 0 {
                MeasurePhase::SyncDevice
            } else {
                MeasurePhase::RecordTracking
            },
            MeasurePhase::SyncDevice => if lock.start_time_us != 0 {
                MeasurePhase::ReadClock
            } else {
                MeasurePhase::StoreDuration(0)
            },
            MeasurePhase::ReadClock => if reply > lock.start_time_us {
                MeasurePhase::StoreDuration((reply - lock.start_time_us) as u64)
            } else {
                MeasurePhase::StoreDuration(0)
            },
            MeasurePhase::RecordTracking => MeasurePhase::WaitTracking,
            MeasurePhase::WaitTracking => MeasurePhase::RecordEnd,
            MeasurePhase::RecordEnd => MeasurePhase::SyncStream,
            MeasurePhase::SyncStream => MeasurePhase::ReadElapsed,
            MeasurePhase::ReadElapsed => MeasurePhase::StoreDuration(reply),
            MeasurePhase::StoreDuration(_) => MeasurePhase::StoreBatch,
            MeasurePhase::StoreBatch => MeasurePhase::Count,
            MeasurePhase::Count => MeasurePhase::Finished,
            MeasurePhase::Finished => MeasurePhase::Finished,
        }
    }

    /// Tells what to do next.
    pub fn step(&self, lock: &InnerLock, slot: usize) -> (step: Step<WorkerAction, ()>)
        ensures
            step == self.asks(*lock, slot),
    {
        let call = match *self {
            MeasurePhase::QueryCapture => RuntimeCall::CaptureStatus(lock.last_user_stream),
            MeasurePhase::SyncDevice => RuntimeCall::DeviceSynchronize,
            MeasurePhase::RecordTracking => RuntimeCall::EventRecord(
                lock.tracking_event,
                lock.last_user_stream,
            ),
            MeasurePhase::WaitTracking => RuntimeCall::StreamWaitEvent(
                lock.internal_stream,
                lock.tracking_event,
            ),
            MeasurePhase::RecordEnd => RuntimeCall::EventRecord(
                lock.end_event,
                lock.internal_stream,
            ),
            MeasurePhase::SyncStream => RuntimeCall::StreamSynchronize(lock.internal_stream),
            MeasurePhase::ReadElapsed => RuntimeCall::ElapsedUs(lock.start_event, lock.end_event),
            MeasurePhase::ReadClock => {
                return Step::Do(WorkerAction::WallClock);
            },
            MeasurePhase::StoreDuration(duration) => {
                return Step::Do(
                    WorkerAction::Memory(Access::Store(LocalCell::ReportDuration(slot), duration)),
                );
            },
            MeasurePhase::StoreBatch => {
                return Step::Do(
                    WorkerAction::Memory(
                        Access::Store(LocalCell::ReportBatchId(slot), lock.current_batch_id),
                    ),
                );
            },
            MeasurePhase::Count => {
                return Step::Do(
                    WorkerAction::Memory(Access::FetchAdd(LocalCell::ReportedCount, 1)),
                );
            },
            MeasurePhase::Finished => {
                return Step::Done(());
            },
        };
        Step::Do(WorkerAction::Runtime(call))
    }

    /// Takes the reply to what was asked. Once the report is counted the worker
    /// has left the batch.
    pub fn advance(&mut self, lock: &mut InnerLock, reply: u64)
        ensures
            *final(self) == old(self).next(*old(lock), reply),
            *final(lock) == if *old(self) is Count {
                old(lock).left_batch()
            } else {
                *old(lock)
            },
    {
        let phase = *self;
        match phase {
            MeasurePhase::QueryCapture => {
                *self = if reply != 0 {
                    MeasurePhase::SyncDevice
                } else {
                    MeasurePhase::RecordTracking
                };
            },
            MeasurePhase::SyncDevice => {
                *self = if lock.start_time_us != 0 {
                    MeasurePhase::ReadClock
                } else {
                    MeasurePhase::StoreDuration(0)
                };
            },
            MeasurePhase::ReadClock => {
                *self = if reply > lock.start_time_us {
                    MeasurePhase::StoreDuration(reply - lock.start_time_us)
                } else {
                    MeasurePhase::StoreDuration(0)
                };
            },
            MeasurePhase::RecordTracking => {
                *self = MeasurePhase::WaitTracking;
            },
            MeasurePhase::WaitTracking => {
                *self = MeasurePhase::RecordEnd;
            },
            MeasurePhase::RecordEnd => {
                *self = MeasurePhase::SyncStream;
            },
            MeasurePhase::SyncStream => {
                *self = MeasurePhase::ReadElapsed;
            },
            MeasurePhase::ReadElapsed => {
                *self = MeasurePhase::StoreDuration(reply);
            },
            MeasurePhase::StoreDuration(_) => {
                *self = MeasurePhase::StoreBatch;
            },
            MeasurePhase::StoreBatch => {
                *self = MeasurePhase::Count;
            },
            MeasurePhase::Count => {
                lock.batch_active = false;
                lock.start_time_us = 0;
                *self = MeasurePhase::Finished;
            },
            MeasurePhase::Finished => {},
        }
    }
}

/// Where a [`TokenWait`] stands.
#[derive(Debug, Clone, Copy, PartialEq, Eq, Structural)]
pub enum TokenPhase {
    ReadState,
    ReadBatch(u64),
    ReadTokens(u64),
    TakeToken(u64),
    /// The token was the worker's first of the batch.
    Announce,
    ReadClock,
    StoreStart(u64),
    RecordStart,
    /// The bucket was empty after all.
    GiveBack,
    Yield,
    Measure(MeasurePhase),
    Park(u64),
    Launch,
}

/// Holds a kernel back until the worker has a token for it.
#[derive(Debug, Clone, Copy, PartialEq, Eq, Structural)]
pub struct TokenWait {
    pub slot: usize,
    pub phase: TokenPhase,
}

impl TokenWait {
    /// The wait in another phase.
    pub open spec fn at(self, phase: TokenPhase) -> TokenWait {
        TokenWait { phase, ..self }
    }

    /// A wait of a client. A client without a segment is not held back.
    pub open spec fn initial(client: &SchedulerClient) -> TokenWait {
        TokenWait {
            slot: client.my_slot_idx,
            phase: if client.connected {
                TokenPhase::ReadState
            } else {
                TokenPhase::Launch
            },
        }
    }

    /// What the wait asks for. It ends when the kernel may be launched.
    pub open spec fn asks(self, lock: InnerLock) -> Step<WorkerAction, ()> {
        match self.phase {
            TokenPhase::ReadState => Step::Do(WorkerAction::Memory(Access::Load(LocalCell::State))),
            TokenPhase::ReadBatch(_) => Step::Do(
                WorkerAction::Memory(Access::Load(LocalCell::BatchId)),
            ),
            TokenPhase::ReadTokens(_) => Step::Do(
                WorkerAction::Memory(Access::Load(LocalCell::TokensRemaining)),
            ),
            TokenPhase::TakeToken(_) => Step::Do(
                WorkerAction::Memory(Access::FetchSub(LocalCell::TokensRemaining, 1)),
            ),
            TokenPhase::Announce => Step::Do(
                WorkerAction::Memory(Access::FetchAdd(LocalCell::ActiveWorkers, 1)),
            ),
            TokenPhase::ReadClock => Step::Do(WorkerAction::WallClock),
            TokenPhase::StoreStart(now) => Step::Do(
                WorkerAction::Memory(Access::Store(LocalCell::ReportCpuStart(self.slot), now)),
            ),
            TokenPhase::RecordStart => Step::Do(
                WorkerAction::Runtime(
                    RuntimeCall::EventRecord(lock.start_event, lock.internal_stream),
                ),
            ),
            TokenPhase::GiveBack => Step::Do(
                WorkerAction::Memory(Access::FetchAdd(LocalCell::TokensRemaining, 1)),
            ),
            TokenPhase::Yield => Step::Do(WorkerAction::Yield),
            TokenPhase::Measure(phase) => match phase.asks(lock, self.slot) {
                Step::Do(action) => Step::Do(action),
                _ => Step::Do(WorkerAction::Park(STATE_MEASURING as u64)),
            },
            TokenPhase::Park(state) => Step::Do(WorkerAction::Park(state)),
            TokenPhase::Launch => Step::Done(()),
        }
    }

    /// The wait, and the worker, once both know the state and the batch.
    pub open spec fn oriented(self, lock: InnerLock, state: u64, batch: u64) -> (
        TokenWait,
        InnerLock,
    ) {
        let seen = lock.seen_batch(batch);
        if state == STATE_RUNNING {
            (self.at(TokenPhase::ReadTokens(batch)), seen)
        } else if state == STATE_MEASURING {
            if seen.batch_active && batch == seen.current_batch_id {
                (self.at(TokenPhase::Measure(MeasurePhase::initial(seen))), seen)
            } else {
                (self.at(TokenPhase::Park(STATE_MEASURING as u64)), seen)
            }
        } else {
            (self.at(TokenPhase::Park(STATE_IDLE as u64)), seen)
        }
    }

    /// The wait, and the worker, once it has the reply to what it asked.
    pub open spec fn next(self, lock: InnerLock, reply: u64) -> (TokenWait, InnerLock) {
        match self.phase {
            TokenPhase::ReadState => (self.at(TokenPhase::ReadBatch(reply)), lock),
            TokenPhase::ReadBatch(state) => self.oriented(lock, state, reply),
            TokenPhase::ReadTokens(batch) => if reply == 0 {
                (self.at(TokenPhase::Yield), lock)
            } else {
                (self.at(TokenPhase::TakeToken(batch)), lock)
            },
            TokenPhase::TakeToken(batch) => if reply == 0 {
                (self.at(TokenPhase::GiveBack), lock)
            } else if lock.batch_active {
                (self.at(TokenPhase::Launch), lock)
            } else {
                (
                    self.at(TokenPhase::Announce),
                    InnerLock { current_batch_id: batch, batch_active: true, ..lock },
                )
            },
            TokenPhase::Announce => (self.at(TokenPhase::ReadClock), lock),
            TokenPhase::ReadClock => (self.at(TokenPhase::StoreStart(reply)), lock),
            TokenPhase::StoreStart(now) => (
                self.at(TokenPhase::RecordStart),
                InnerLock { start_time_us: now, ..lock },
            ),
            TokenPhase::RecordStart => (self.at(TokenPhase::Launch), lock),
            TokenPhase::GiveBack => (self.at(TokenPhase::ReadState), lock),
            TokenPhase::Yield => (self.at(TokenPhase::ReadState), lock),
            TokenPhase::Measure(phase) => {
                let further = phase.next(lock, reply);
                (
                    match further {
                        MeasurePhase::Finished => self.at(
                            TokenPhase::Park(STATE_MEASURING as u64),
                        ),
                        _ => self.at(TokenPhase::Measure(further)),
                    },
                    if phase is Count {
                        lock.left_batch()
                    } else {
                        lock
                    },
                )
            },
            TokenPhase::Park(_) => (self.at(TokenPhase::ReadState), lock),
            TokenPhase::Launch => (self, lock),
        }
    }

    /// Tells what to do next. While a thread yields or is parked it gives the
    /// lock up.
    pub fn step(&self, lock: &InnerLock) -> (step: Step<WorkerAction, ()>)
        ensures
            step == self.asks(*lock),
    {
        let access = match &self.phase {
            TokenPhase::ReadState => Access::Load(LocalCell::State),
            TokenPhase::ReadBatch(_) => Access::Load(LocalCell::BatchId),
            TokenPhase::ReadTokens(_) => Access::Load(LocalCell::TokensRemaining),
            TokenPhase::TakeToken(_) => Access::FetchSub(LocalCell::TokensRemaining, 1),
            TokenPhase::Announce => Access::FetchAdd(LocalCell::ActiveWorkers, 1),
            TokenPhase::StoreStart(now) => Access::Store(LocalCell::ReportCpuStart(self.slot), *now),
            TokenPhase::GiveBack => Access::FetchAdd(LocalCell::TokensRemaining, 1),
            TokenPhase::ReadClock => {
                return Step::Do(WorkerAction::WallClock);
            },
            TokenPhase::RecordStart => {
                return Step::Do(
                    WorkerAction::Runtime(
                        RuntimeCall::EventRecord(lock.start_event, lock.internal_stream),
                    ),
                );
            },
            TokenPhase::Yield => {
                return Step::Do(WorkerAction::Yield);
            },
            TokenPhase::Measure(phase) => {
                return match phase.step(lock, self.slot) {
                    Step::Do(action) => Step::Do(action),
                    _ => Step::Do(WorkerAction::Park(STATE_MEASURING as u64)),
                };
            },
            TokenPhase::Park(state) => {
                return Step::Do(WorkerAction::Park(*state));
            },
            TokenPhase::Launch => {
                return Step::Done(());
            },
        };
        Step::Do(WorkerAction::Memory(access))
    }

    fn orient(&mut self, lock: &mut InnerLock, state: u64, batch: u64)
        ensures
            (*final(self), *final(lock)) == old(self).oriented(*old(lock), state, batch),
    {
        if lock.batch_active && batch != lock.current_batch_id {
            lock.batch_active = false;
            lock.start_time_us = 0;
        }
        if state == STATE_RUNNING as u64 {
            self.phase = TokenPhase::ReadTokens(batch);
        } else if state == STATE_MEASURING as u64 {
            if lock.batch_active && batch == lock.current_batch_id {
                self.phase = TokenPhase::Measure(SchedulerClient::measure_and_report_batch(lock));
            } else {
                self.phase = TokenPhase::Park(STATE_MEASURING as u64);
            }
        } else {
            self.phase = TokenPhase::Park(STATE_IDLE as u64);
        }
    }

    /// Takes the reply to what was asked.
    pub fn advance(&mut self, lock: &mut InnerLock, reply: u64)
        ensures
            (*final(self), *final(lock)) == old(self).next(*old(lock), reply),
    {
        match self.phase {
            TokenPhase::ReadState => {
                self.phase = TokenPhase::ReadBatch(reply);
            },
            TokenPhase::ReadBatch(state) => {
                self.orient(lock, state, reply);
            },
            TokenPhase::ReadTokens(batch) => {
                if reply == 0 {
                    self.phase = TokenPhase::Yield;
                } else {
                    self.phase = TokenPhase::TakeToken(batch);
                }
            },
            TokenPhase::TakeToken(batch) => {
                if reply == 0 {
                    self.phase = TokenPhase::GiveBack;
                } else if lock.batch_active {
                    self.phase = TokenPhase::Launch;
                } else {
                    lock.current_batch_id = batch;
                    lock.batch_active = true;
                    self.phase = TokenPhase::Announce;
                }
            },
            TokenPhase::Announce => {
                self.phase = TokenPhase::ReadClock;
            },
            TokenPhase::ReadClock => {
                self.phase = TokenPhase::StoreStart(reply);
            },
            TokenPhase::StoreStart(now) => {
                lock.start_time_us = now;
                self.phase = TokenPhase::RecordStart;
            },
            TokenPhase::RecordStart => {
                self.phase = TokenPhase::Launch;
            },
            TokenPhase::GiveBack => {
                self.phase = TokenPhase::ReadState;
            },
            TokenPhase::Yield => {
                self.phase = TokenPhase::ReadState;
            },
            TokenPhase::Measure(phase) => {
                let mut further = phase;
                further.advance(lock, reply);
                self.phase = match further {
                    MeasurePhase::Finished => TokenPhase::Park(STATE_MEASURING as u64),
                    _ => TokenPhase::Measure(further),
                };
            },
            TokenPhase::Park(_) => {
                self.phase = TokenPhase::ReadState;
            },
            TokenPhase::Launch => {},
        }
    }
}

impl SchedulerClient {
    /// Starts the wait for a token before a kernel is launched on a stream.
    pub fn wait_for_token(&self, lock: &mut InnerLock, user_stream: u64) -> (wait: TokenWait)
        ensures
            wait == TokenWait::initial(self),
            *final(lock) == (InnerLock { last_user_stream: user_stream, ..*old(lock) }),
            *final(lock) == old(lock).on_stream(user_stream),
    {
        lock.last_user_stream = user_stream;
        TokenWait {
            slot: self.my_slot_idx,
            phase: if self.connected {
                TokenPhase::ReadState
            } else {
                TokenPhase::Launch
            },
        }
    }

    /// Starts the report of the batch that the worker has joined.
    pub fn measure_and_report_batch(lock: &InnerLock) -> (phase: MeasurePhase)
        ensures
            phase == MeasurePhase::initial(*lock),
    {
        if lock.last_user_stream != 0 {
            MeasurePhase::QueryCapture
        } else {
            MeasurePhase::SyncDevice
        }
    }
}

impl TokenWait {
    /// The wait after a sequence of replies, each with the worker as it was when
    /// the reply came: other threads may change it in between.
    pub open spec fn after(self, events: Seq<(InnerLock, u64)>) -> TokenWait
        decreases events.len(),
    {
        if events.len() == 0 {
            self
        } else {
            self.after(events.drop_last()).next(events.last().0, events.last().1).0
        }
    }

    /// How many tokens the wait has taken out of the bucket and not put back.
    pub open spec fn spent(self, events: Seq<(InnerLock, u64)>) -> int
        decreases events.len(),
    {
        if events.len() == 0 {
            0
        } else {
            self.spent(events.drop_last()) + match self.after(events.drop_last()).phase {
                TokenPhase::TakeToken(_) => 1int,
                TokenPhase::GiveBack => -1int,
                _ => 0int,
            }
        }
    }

    /// How many tokens are out of the bucket in a phase.
    pub open spec fn holds(self) -> int {
        match self.phase {
            TokenPhase::Announce => 1,
            TokenPhase::ReadClock => 1,
            TokenPhase::StoreStart(_) => 1,
            TokenPhase::RecordStart => 1,
            TokenPhase::GiveBack => 1,
            TokenPhase::Launch => 1,
            _ => 0,
        }
    }
}

/// Whatever other processes and threads do meanwhile, a connected worker has
/// taken exactly one token when its kernel is launched, and has put every other
/// token back.
pub proof fn law_one_token_per_launch(client: SchedulerClient, events: Seq<(InnerLock, u64)>)
    requires
        client.connected,
    ensures
        ({
            let wait = TokenWait::initial(&client);
            wait.spent(events) == wait.after(events).holds()
        }),
    decreases events.len(),
{
    if events.len() > 0 {
        law_one_token_per_launch(client, events.drop_last());
    }
}

/// A client without a segment is never held back, and touches nothing.
pub proof fn law_stub_launches_at_once(client: SchedulerClient, lock: InnerLock)
    requires
        !client.connected,
    ensures
        TokenWait::initial(&client).asks(lock) == Step::<WorkerAction, ()>::Done(()),
{
}

/// What a worker is told from outside of the segment.
pub ghost struct Answers {
    /// What the wall clock shows.
    pub now: u64,
    /// The capture status of the worker's stream.
    pub capturing: u64,
    /// Microseconds between the events of the batch.
    pub elapsed_us: u64,
    /// What other calls into the runtime return.
    pub code: u64,
}

impl Answers {
    /// The reply to an action, given the segment.
    pub open spec fn reply(self, memory: Map<LocalCell, u64>, action: WorkerAction) -> u64 {
        match action {
            WorkerAction::WallClock => self.now,
            WorkerAction::Runtime(RuntimeCall::CaptureStatus(_)) => self.capturing,
            WorkerAction::Runtime(RuntimeCall::ElapsedUs(_, _)) => self.elapsed_us,
            WorkerAction::Runtime(_) => self.code,
            _ => crate::worker::lone_reply(memory, Set::empty(), action),
        }
    }

    /// How long a batch took that a worker reports: what the events say, unless
    /// there is no stream to record them on or it is capturing; then the time
    /// since the worker joined, or nothing where that is not known.
    pub open spec fn duration(self, lock: InnerLock) -> u64 {
        if lock.last_user_stream != 0 && self.capturing == 0 {
            self.elapsed_us
        } else if lock.start_time_us != 0 && self.now > lock.start_time_us {
            (self.now - lock.start_time_us) as u64
        } else {
            0
        }
    }

    /// How many replies it takes a worker to report a batch and go to sleep.
    pub open spec fn replies_to_report(self, lock: InnerLock) -> nat {
        let asked = if lock.last_user_stream != 0 {
            1nat
        } else {
            0
        };
        let measured = if lock.last_user_stream != 0 && self.capturing == 0 {
            5nat
        } else if lock.start_time_us != 0 {
            2
        } else {
            1
        };
        2 + asked + measured + 3
    }
}

impl TokenWait {
    /// A wait, its worker and the segment after some replies, when nobody else
    /// interferes.
    pub open spec fn lone_run(
        self,
        lock: InnerLock,
        memory: Map<LocalCell, u64>,
        answers: Answers,
        replies: nat,
    ) -> (TokenWait, InnerLock, Map<LocalCell, u64>)
        decreases replies,
    {
        if replies == 0 {
            (self, lock, memory)
        } else {
            let (wait, worker, segment) = self.lone_run(
                lock,
                memory,
                answers,
                (replies - 1) as nat,
            );
            match wait.asks(worker) {
                Step::Do(action) => {
                    let (further, changed) = wait.next(worker, answers.reply(segment, action));
                    (further, changed, crate::worker::lone_effect(segment, action))
                },
                _ => (wait, worker, segment),
            }
        }
    }
}

/// A worker that holds the segment alone while a batch is running and tokens
/// are left gets one: it takes one token out, and on its first of the batch it
/// announces itself and notes when it started. It touches nothing else.
pub proof fn law_token_is_granted(
    client: SchedulerClient,
    lock: InnerLock,
    memory: Map<LocalCell, u64>,
    answers: Answers,
)
    requires
        client.connected,
        client.wf(),
        memory.dom().contains(LocalCell::State),
        memory.dom().contains(LocalCell::BatchId),
        memory.dom().contains(LocalCell::TokensRemaining),
        memory[LocalCell::State] == STATE_RUNNING,
        memory[LocalCell::TokensRemaining] > 0,
    ensures
        ({
            let batch = memory[LocalCell::BatchId];
            let seen = lock.seen_batch(batch);
            let taken = memory.insert(
                LocalCell::TokensRemaining,
                (memory[LocalCell::TokensRemaining] - 1) as u64,
            );
            let end = TokenWait::initial(&client).lone_run(lock, memory, answers, 8);
            &&& end.0.phase is Launch
            &&& if seen.batch_active {
                end.1 == seen && end.2 == taken
            } else {
                &&& end.1 == InnerLock {
                    current_batch_id: batch,
                    batch_active: true,
                    start_time_us: answers.now,
                    ..seen
                }
                &&& end.2 == crate::access::effect(
                    crate::access::effect(taken, Access::FetchAdd(LocalCell::ActiveWorkers, 1)),
                    Access::Store(LocalCell::ReportCpuStart(client.my_slot_idx), answers.now),
                )
            }
        }),
{
    let wait = TokenWait::initial(&client);
    let batch = memory[LocalCell::BatchId];
    let seen = lock.seen_batch(batch);
    let tokens = memory[LocalCell::TokensRemaining];
    let taken = memory.insert(LocalCell::TokensRemaining, (tokens - 1) as u64);
    crate::access::lemma_fit_keeps(crate::access::Width::W64, tokens - 1);
    assert(memory.insert(LocalCell::State, memory[LocalCell::State]) =~= memory);
    assert(memory.insert(LocalCell::BatchId, batch) =~= memory);
    assert(memory.insert(LocalCell::TokensRemaining, tokens) =~= memory);
    reveal_with_fuel(TokenWait::lone_run, 9);
    assert(wait.lone_run(lock, memory, answers, 1) == (
        wait.at(TokenPhase::ReadBatch(STATE_RUNNING as u64)),
        lock,
        memory,
    ));
    assert(wait.lone_run(lock, memory, answers, 2) == (
        wait.at(TokenPhase::ReadTokens(batch)),
        seen,
        memory,
    ));
    assert(wait.lone_run(lock, memory, answers, 3) == (
        wait.at(TokenPhase::TakeToken(batch)),
        seen,
        memory,
    ));
    assert(wait.lone_run(lock, memory, answers, 4).2 =~= taken);
}

/// A worker that holds the segment alone and finds an empty bucket yields, and
/// changes nothing.
pub proof fn law_empty_bucket_holds_back(
    client: SchedulerClient,
    lock: InnerLock,
    memory: Map<LocalCell, u64>,
    answers: Answers,
)
    requires
        client.connected,
        memory.dom().contains(LocalCell::State),
        memory.dom().contains(LocalCell::BatchId),
        memory.dom().contains(LocalCell::TokensRemaining),
        memory[LocalCell::State] == STATE_RUNNING,
        memory[LocalCell::TokensRemaining] == 0,
    ensures
        ({
            let end = TokenWait::initial(&client).lone_run(lock, memory, answers, 3);
            &&& end.0.asks(end.1) == Step::<WorkerAction, ()>::Do(WorkerAction::Yield)
            &&& end.1 == lock.seen_batch(memory[LocalCell::BatchId])
            &&& end.2 == memory
        }),
{
    assert(memory.insert(LocalCell::State, memory[LocalCell::State]) =~= memory);
    assert(memory.insert(LocalCell::BatchId, memory[LocalCell::BatchId]) =~= memory);
    assert(memory.insert(LocalCell::TokensRemaining, 0) =~= memory);
    reveal_with_fuel(TokenWait::lone_run, 4);
}

/// A worker sleeps while no batch is running, and while one is measured that it
/// has no part in or has already reported.
pub proof fn law_nothing_to_report_sleeps(
    wait: TokenWait,
    lock: InnerLock,
    state: u64,
    batch: u64,
)
    requires
        state != STATE_RUNNING,
        !lock.batch_active || lock.current_batch_id != batch,
    ensures
        wait.oriented(lock, state, batch).0.asks(lock) == Step::<WorkerAction, ()>::Do(
            WorkerAction::Park(
                if state == STATE_MEASURING {
                    STATE_MEASURING as u64
                } else {
                    STATE_IDLE as u64
                },
            ),
        ),
{
}

/// A worker that holds the segment alone while its batch is measured reports how
/// long the batch took, once, and leaves the batch before it goes to sleep. This
/// is so whether the batch is timed with events or with the wall clock, and
/// whether or not it is known when the worker joined.
pub proof fn law_batch_is_reported(
    client: SchedulerClient,
    lock: InnerLock,
    memory: Map<LocalCell, u64>,
    answers: Answers,
)
    requires
        client.connected,
        client.wf(),
        lock.batch_active,
        memory.dom().contains(LocalCell::State),
        memory.dom().contains(LocalCell::BatchId),
        memory[LocalCell::State] == STATE_MEASURING,
        memory[LocalCell::BatchId] == lock.current_batch_id,
    ensures
        ({
            let slot = client.my_slot_idx;
            let end = TokenWait::initial(&client).lone_run(
                lock,
                memory,
                answers,
                answers.replies_to_report(lock),
            );
            &&& end.0.asks(end.1) == Step::<WorkerAction, ()>::Do(
                WorkerAction::Park(STATE_MEASURING as u64),
            )
            &&& end.1 == lock.left_batch()
            &&& end.2 == crate::access::effect(
                memory.insert(LocalCell::ReportDuration(slot), answers.duration(lock)).insert(
                    LocalCell::ReportBatchId(slot),
                    lock.current_batch_id,
                ),
                Access::FetchAdd(LocalCell::ReportedCount, 1),
            )
        }),
{
    let wait = TokenWait::initial(&client);
    let took = answers.duration(lock);
    let n = answers.replies_to_report(lock);
    assert(memory.insert(LocalCell::State, memory[LocalCell::State]) =~= memory);
    assert(memory.insert(LocalCell::BatchId, memory[LocalCell::BatchId]) =~= memory);
    crate::access::lemma_fit_keeps(crate::access::Width::W64, took as int);
    crate::access::lemma_fit_keeps(crate::access::Width::W64, lock.current_batch_id as int);
    reveal_with_fuel(TokenWait::lone_run, 12);
    assert(wait.lone_run(lock, memory, answers, 2) == (
        wait.at(TokenPhase::Measure(MeasurePhase::initial(lock))),
        lock,
        memory,
    ));
    assert(wait.lone_run(lock, memory, answers, (n - 3) as nat) == (
        wait.at(TokenPhase::Measure(MeasurePhase::StoreDuration(took))),
        lock,
        memory,
    ));
}

impl InnerLock {
    /// A worker that has not launched anything.
    pub open spec fn fresh(
        internal_stream: u64,
        start_event: u64,
        end_event: u64,
        tracking_event: u64,
    ) -> InnerLock {
        InnerLock {
            internal_stream,
            start_event,
            end_event,
            tracking_event,
            batch_active: false,
            current_batch_id: 0,
            last_user_stream: 0,
            start_time_us: 0,
        }
    }

    /// The worker once a kernel is to be launched on a stream.
    pub open spec fn on_stream(self, user_stream: u64) -> InnerLock {
        InnerLock { last_user_stream: user_stream, ..self }
    }
}

/// A new worker keeps the stream and the events that it is given, each in its place,
/// and is in no batch. A kernel's stream is noted, and nothing else.
pub proof fn law_worker_starts_outside_batches(
    stream: u64,
    start: u64,
    end: u64,
    tracking: u64,
    lock: InnerLock,
    user_stream: u64,
)
    ensures
        ({
            let worker = InnerLock::fresh(stream, start, end, tracking);
            &&& worker.internal_stream == stream
            &&& worker.start_event == start
            &&& worker.end_event == end
            &&& worker.tracking_event == tracking
            &&& !worker.batch_active
            &&& worker.current_batch_id == 0
            &&& worker.last_user_stream == 0
            &&& worker.start_time_us == 0
        }),
        lock.on_stream(user_stream).last_user_stream == user_stream,
        lock.on_stream(user_stream).batch_active == lock.batch_active,
        lock.on_stream(user_stream).current_batch_id == lock.current_batch_id,
        lock.on_stream(user_stream).start_time_us == lock.start_time_us,
        lock.on_stream(user_stream).internal_stream == lock.internal_stream,
        lock.on_stream(user_stream).start_event == lock.start_event,
        lock.on_stream(user_stream).end_event == lock.end_event,
        lock.on_stream(user_stream).tracking_event == lock.tracking_event,
{
}

impl TokenWait {
    /// Whether the wait asks for an access to the segment.
    pub open spec fn asks_for(self, lock: InnerLock, access: Access<LocalCell>) -> bool {
        self.asks(lock) == Step::<WorkerAction, ()>::Do(WorkerAction::Memory(access))
    }

    /// Whether the wait asks for a call into the runtime.
    pub open spec fn calls(self, lock: InnerLock, call: RuntimeCall) -> bool {
        self.asks(lock) == Step::<WorkerAction, ()>::Do(WorkerAction::Runtime(call))
    }

    /// Whether the wait asks to sleep while the state word holds a value.
    pub open spec fn parks(self, lock: InnerLock, state: u64) -> bool {
        self.asks(lock) == Step::<WorkerAction, ()>::Do(WorkerAction::Park(state))
    }
}

/// What a worker does by the state and the batch that it reads. One that has joined
/// an earlier batch leaves it. While a batch runs, it looks for tokens. While the one
/// it has joined is measured, it reports; while another is, it sleeps. In any other
/// state it sleeps until that is over. A worker that wakes looks at the state again.
pub proof fn law_state_decides(
    wait: TokenWait,
    lock: InnerLock,
    state: u64,
    batch: u64,
    reply: u64,
)
    requires
        wait.phase is ReadState,
    ensures
        ({
            let asked = wait.next(lock, state);
            let (decided, worker) = asked.0.next(lock, batch);
            let joined = lock.batch_active && lock.current_batch_id == batch;
            &&& wait.asks_for(lock, Access::Load(LocalCell::State))
            &&& asked.0.asks_for(lock, Access::Load(LocalCell::BatchId))
            &&& asked.1 == lock
            &&& decided.slot == wait.slot
            &&& lock.batch_active && lock.current_batch_id != batch ==> worker == (InnerLock {
                batch_active: false,
                start_time_us: 0,
                ..lock
            })
            &&& !lock.batch_active || lock.current_batch_id == batch ==> worker == lock
            &&& state == 1 ==> {
                &&& decided.phase == TokenPhase::ReadTokens(batch)
                &&& decided.asks_for(worker, Access::Load(LocalCell::TokensRemaining))
            }
            &&& state == 2 && joined && lock.last_user_stream != 0 ==> decided.calls(
                worker,
                RuntimeCall::CaptureStatus(lock.last_user_stream),
            )
            &&& state == 2 && joined && lock.last_user_stream == 0 ==> decided.calls(
                worker,
                RuntimeCall::DeviceSynchronize,
            )
            &&& state == 2 && joined ==> decided.phase is Measure
            &&& state == 2 && !joined ==> decided.parks(worker, 2)
            &&& state != 1 && state != 2 ==> decided.parks(worker, 0)
            &&& state != 1 && !(state == 2 && joined) ==> decided.next(worker, reply) == (
                wait,
                worker,
            )
        }),
{
}

/// What a worker does by the tokens that it finds. Without any it yields and looks
/// again. Otherwise it takes one, and puts it back where there was none after all. A
/// token that it keeps lets it launch; the first of a batch only once it has joined
/// the batch, counted itself, and noted and recorded when it starts.
pub proof fn law_tokens_decide(
    wait: TokenWait,
    lock: InnerLock,
    batch: u64,
    tokens: u64,
    before: u64,
    now: u64,
    reply: u64,
)
    requires
        wait.phase == TokenPhase::ReadTokens(batch),
        tokens > 0,
        before > 0,
    ensures
        ({
            let again = (TokenWait { phase: TokenPhase::ReadState, ..wait });
            let empty = wait.next(lock, 0).0;
            let taking = wait.next(lock, tokens).0;
            let late = taking.next(lock, 0).0;
            let (kept, worker) = taking.next(lock, before);
            &&& wait.next(lock, 0).1 == lock
            &&& empty.asks(lock) == Step::<WorkerAction, ()>::Do(WorkerAction::Yield)
            &&& empty.next(lock, reply) == (again, lock)
            &&& wait.next(lock, tokens).1 == lock
            &&& taking.asks_for(lock, Access::FetchSub(LocalCell::TokensRemaining, 1))
            &&& taking.next(lock, 0).1 == lock
            &&& late.asks_for(lock, Access::FetchAdd(LocalCell::TokensRemaining, 1))
            &&& late.next(lock, reply) == (again, lock)
            &&& lock.batch_active ==> worker == lock && kept.asks(worker) is Done
            &&& !lock.batch_active ==> {
                let counted = kept.next(worker, reply);
                let timed = counted.0.next(worker, now);
                let noted = timed.0.next(worker, reply);
                &&& worker == (InnerLock { batch_active: true, current_batch_id: batch, ..lock })
                &&& kept.asks_for(worker, Access::FetchAdd(LocalCell::ActiveWorkers, 1))
                &&& counted.1 == worker
                &&& counted.0.asks(worker) == Step::<WorkerAction, ()>::Do(WorkerAction::WallClock)
                &&& timed.1 == worker
                &&& timed.0.asks_for(
                    worker,
                    Access::Store(LocalCell::ReportCpuStart(wait.slot), now),
                )
                &&& noted.1 == (InnerLock { start_time_us: now, ..worker })
                &&& noted.0.calls(
                    noted.1,
                    RuntimeCall::EventRecord(lock.start_event, lock.internal_stream),
                )
                &&& noted.0.next(noted.1, reply).1 == noted.1
                &&& noted.0.next(noted.1, reply).0.asks(noted.1) is Done
            }
        }),
{
}

impl TokenWait {
    /// Whether the wait reports a duration: it stores that and the batch, counts the
    /// report, leaves the batch and sleeps until the batch is over.
    pub open spec fn reports(self, lock: InnerLock, slot: usize, duration: u64) -> bool {
        &&& self.asks_for(lock, Access::Store(LocalCell::ReportDuration(slot), duration))
        &&& forall|r: u64|
            {
                let second = #[trigger] self.next(lock, r);
                let third = second.0.next(lock, r);
                let last = third.0.next(lock, r);
                &&& second.1 == lock && third.1 == lock
                &&& second.0.asks_for(
                    lock,
                    Access::Store(LocalCell::ReportBatchId(slot), lock.current_batch_id),
                )
                &&& third.0.asks_for(lock, Access::FetchAdd(LocalCell::ReportedCount, 1))
                &&& last.1 == (InnerLock { batch_active: false, start_time_us: 0, ..lock })
                &&& last.0.parks(last.1, 2)
            }
    }
}

/// How long a batch took by the device's events: the last kernel's stream is
/// followed by the worker's own, whose time from the start of the batch to its end
/// is reported.
pub proof fn law_events_time_the_batch(
    wait: TokenWait,
    lock: InnerLock,
    reply: u64,
    elapsed_us: u64,
)
    requires
        wait.phase == TokenPhase::Measure(MeasurePhase::QueryCapture),
    ensures
        ({
            let marking = wait.next(lock, 0).0;
            let waiting = marking.next(lock, reply).0;
            let ending = waiting.next(lock, reply).0;
            let syncing = ending.next(lock, reply).0;
            let reading = syncing.next(lock, reply).0;
            &&& wait.calls(lock, RuntimeCall::CaptureStatus(lock.last_user_stream))
            &&& marking.calls(
                lock,
                RuntimeCall::EventRecord(lock.tracking_event, lock.last_user_stream),
            )
            &&& waiting.calls(
                lock,
                RuntimeCall::StreamWaitEvent(lock.internal_stream, lock.tracking_event),
            )
            &&& ending.calls(lock, RuntimeCall::EventRecord(lock.end_event, lock.internal_stream))
            &&& syncing.calls(lock, RuntimeCall::StreamSynchronize(lock.internal_stream))
            &&& reading.calls(lock, RuntimeCall::ElapsedUs(lock.start_event, lock.end_event))
            &&& reading.next(lock, elapsed_us).0.reports(lock, wait.slot, elapsed_us)
            &&& reply != 0 ==> wait.next(lock, reply).0 == (TokenWait {
                phase: TokenPhase::Measure(MeasurePhase::SyncDevice),
                ..wait
            })
        }),
{
}

/// How long a batch took where events cannot be used: the device is waited for, and
/// the time since the worker joined is reported; nothing where it is not known when
/// that was, or lies ahead.
pub proof fn law_clock_times_the_batch(wait: TokenWait, lock: InnerLock, reply: u64, now: u64)
    requires
        wait.phase == TokenPhase::Measure(MeasurePhase::SyncDevice),
    ensures
        ({
            let synced = wait.next(lock, reply).0;
            &&& wait.calls(lock, RuntimeCall::DeviceSynchronize)
            &&& lock.start_time_us == 0 ==> synced.reports(lock, wait.slot, 0)
            &&& lock.start_time_us != 0 ==> {
                &&& synced.asks(lock) == Step::<WorkerAction, ()>::Do(WorkerAction::WallClock)
                &&& now >= lock.start_time_us ==> synced.next(lock, now).0.reports(
                    lock,
                    wait.slot,
                    (now - lock.start_time_us) as u64,
                )
                &&& now < lock.start_time_us ==> synced.next(lock, now).0.reports(
                    lock,
                    wait.slot,
                    0,
                )
            }
        }),
{
}

/// A client with a segment starts with the state, and reports in its own slot.
pub proof fn law_wait_starts_with_state(client: SchedulerClient, lock: InnerLock)
    ensures
        TokenWait::initial(&client).slot == client.my_slot_idx,
        client.connected ==> TokenWait::initial(&client).asks_for(
            lock,
            Access::Load(LocalCell::State),
        ),
{
}

impl TokenWait {
    /// How many tokens the wait's actions have taken out of the bucket, less those
    /// that they have put in.
    pub open spec fn drawn(self, events: Seq<(InnerLock, u64)>) -> int
        decreases events.len(),
    {
        if events.len() == 0 {
            0
        } else {
            let before = self.drawn(events.drop_last());
            match self.after(events.drop_last()).asks(events.last().0) {
                Step::Do(WorkerAction::Memory(Access::FetchSub(cell, n))) => if cell
                    == LocalCell::TokensRemaining {
                    before + n
                } else {
                    before
                },
                Step::Do(WorkerAction::Memory(Access::FetchAdd(cell, n))) => if cell
                    == LocalCell::TokensRemaining {
                    before - n
                } else {
                    before
                },
                _ => before,
            }
        }
    }
}

/// Whatever other processes and threads do meanwhile, the actions of a connected
/// worker draw exactly one token for a kernel that is launched, and none while it
/// waits for its next look at the state.
pub proof fn law_launch_draws_one_token(
    client: SchedulerClient,
    events: Seq<(InnerLock, u64)>,
    lock: InnerLock,
)
    requires
        client.connected,
    ensures
        ({
            let wait = TokenWait::initial(&client);
            let end = wait.after(events);
            &&& wait.drawn(events) == wait.spent(events)
            &&& end.asks(lock) is Done ==> wait.drawn(events) == 1
            &&& end.asks_for(lock, Access::Load(LocalCell::State)) ==> wait.drawn(events) == 0
        }),
    decreases events.len(),
{
    law_one_token_per_launch(client, events);
    if events.len() > 0 {
        law_launch_draws_one_token(client, events.drop_last(), events.last().0);
        let seen = TokenWait::initial(&client).after(events.drop_last());
        if let TokenPhase::Measure(phase) = seen.phase {
            assert(phase.asks(events.last().0, seen.slot) matches Step::Do(
                WorkerAction::Memory(Access::FetchAdd(cell, _)),
            ) ==> cell != LocalCell::TokensRemaining);
        }
    }
    let end = TokenWait::initial(&client).after(events);
    if let TokenPhase::Measure(phase) = end.phase {
        assert(!(phase.asks(lock, end.slot) matches Step::Do(
            WorkerAction::Memory(Access::Load(_)),
        )));
    }
}

} // verus!
