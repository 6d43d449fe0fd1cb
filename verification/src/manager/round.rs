//! One batch: tokens are handed out, and the workers' reports are collected.

use vstd::prelude::*;

use crate::access::{Access, Step, Width};
use crate::manager::plan::SharePlan;
use crate::manager::report::ReportScan;
use crate::manager::rest::HEARTBEAT_INTERVAL_NS;
use crate::manager::slot::ContainerManager;
use crate::manager::{Heartbeat, ManagerAction, GLOBAL_WATCHDOG_TIMEOUT_US};
use crate::shmem::{GlobalCell, LocalCell, MAX_WORKERS, STATE_IDLE, STATE_MEASURING, STATE_RUNNING};

verus! {

/// Nanoseconds that the manager waits for reports at least.
pub const LOCAL_REPORT_GRACE_NS: u64 = 500_000_000;

/// Nanoseconds that are added to a quarter of a batch's time limit.
pub const REPORT_MARGIN_NS: u64 = 10_000_000;

/// Nanoseconds after which a batch that nobody joins is given up.
pub const NO_PROGRESS_NS: u64 = 5_000_000;

/// Nanoseconds between two looks at the bucket.
pub const POLL_INTERVAL_NS: u64 = 200_000;

/// Where a [`LocalRound`] stands.
#[derive(Debug, Clone, Copy, PartialEq, Eq, Structural)]
pub enum RoundPhase {
    ReadBatchId,
    StoreBatchId,
    FillBucket,
    ClearActive,
    ClearReported,
    SetRunning,
    WakeRunning,
    MarkStart,
    PollTokens,
    /// A fixed share holds the turn for its whole budget.
    CheckBudget(u64),
    PollActive(u64),
    CheckProgress(u64),
    CheckTimeout,
    ReadLeft,
    PollBeat(Heartbeat),
    PollSleep,
    /// The batch is over: see what is left before the bucket is emptied.
    ReadRemaining,
    EmptyBucket,
    CloseBeat(Heartbeat),
    SetMeasuring,
    WakeMeasuring,
    MarkReport,
    MarkBeat,
    PollJoined,
    PollReported(u64),
    CheckGrace,
    CheckBeat,
    ReportBeat(Heartbeat),
    RemarkBeat,
    ReportYield,
    Collect(ReportScan),
    SetIdle(u64, u64),
    Finished(u64, u64),
    Overflowed,
}

/// Runs a batch. The result is how long it took and how many tokens it used.
#[derive(Debug, Clone, Copy, PartialEq, Eq, Structural)]
pub struct LocalRound {
    pub manager: usize,
    pub fixed_share_ratio: bool,
    pub plan: SharePlan,
    pub batch_id: u64,
    /// When the batch started.
    pub started: u64,
    /// How many tokens were left at the last look.
    pub last_tokens: u64,
    pub saw_progress: bool,
    pub consumed: u64,
    /// When the manager started to wait for reports.
    pub closed: u64,
    pub last_beat: u64,
    pub phase: RoundPhase,
}

/// How many tokens are gone when some are left.
pub open spec fn tokens_gone(tokens: u64, left: u64) -> u64 {
    if tokens > left {
        (tokens - left) as u64
    } else {
        0
    }
}

/// How long the manager waits for reports of a batch with a time limit.
pub open spec fn report_grace(time_limit_us: u64) -> int {
    let quarter = (time_limit_us / 4) * 1000 + REPORT_MARGIN_NS;
    if quarter > LOCAL_REPORT_GRACE_NS {
        quarter
    } else {
        LOCAL_REPORT_GRACE_NS as int
    }
}

impl LocalRound {
    /// A batch that has not begun.
    pub open spec fn initial(manager: &ContainerManager, plan: SharePlan) -> LocalRound {
        LocalRound {
            manager: manager.my_global_idx,
            fixed_share_ratio: manager.fixed_share_ratio,
            plan,
            batch_id: 0,
            started: 0,
            last_tokens: plan.tokens,
            saw_progress: false,
            consumed: 0,
            closed: 0,
            last_beat: 0,
            phase: RoundPhase::ReadBatchId,
        }
    }

    /// The round in another phase.
    pub open spec fn at(self, phase: RoundPhase) -> LocalRound {
        LocalRound { phase, ..self }
    }

    /// What the round asks for.
    pub open spec fn asks(self) -> Step<ManagerAction, (u64, u64)> {
        match self.phase {
            RoundPhase::ReadBatchId => Step::Do(
                ManagerAction::Local(Access::Load(LocalCell::BatchId)),
            ),
            RoundPhase::StoreBatchId => Step::Do(
                ManagerAction::Local(Access::Store(LocalCell::BatchId, self.batch_id)),
            ),
            RoundPhase::FillBucket => Step::Do(
                ManagerAction::Local(Access::Store(LocalCell::TokensRemaining, self.plan.tokens)),
            ),
            RoundPhase::ClearActive => Step::Do(
                ManagerAction::Local(Access::Store(LocalCell::ActiveWorkers, 0)),
            ),
            RoundPhase::ClearReported => Step::Do(
                ManagerAction::Local(Access::Store(LocalCell::ReportedCount, 0)),
            ),
            RoundPhase::SetRunning => Step::Do(
                ManagerAction::Local(Access::Store(LocalCell::State, STATE_RUNNING as u64)),
            ),
            RoundPhase::WakeRunning => Step::Do(ManagerAction::WakeLocal),
            RoundPhase::MarkStart => Step::Do(ManagerAction::Monotonic),
            RoundPhase::PollTokens => Step::Do(
                ManagerAction::Local(Access::Load(LocalCell::TokensRemaining)),
            ),
            RoundPhase::CheckBudget(_) => Step::Do(ManagerAction::Monotonic),
            RoundPhase::PollActive(_) => Step::Do(
                ManagerAction::Local(Access::Load(LocalCell::ActiveWorkers)),
            ),
            RoundPhase::CheckProgress(_) => Step::Do(ManagerAction::Monotonic),
            RoundPhase::CheckTimeout => Step::Do(ManagerAction::Monotonic),
            RoundPhase::ReadLeft => Step::Do(
                ManagerAction::Local(Access::Load(LocalCell::TokensRemaining)),
            ),
            RoundPhase::PollBeat(beat) => match beat.asks(self.manager) {
                Step::Do(action) => Step::Do(action),
                _ => Step::Do(ManagerAction::Sleep(POLL_INTERVAL_NS)),
            },
            RoundPhase::PollSleep => Step::Do(ManagerAction::Sleep(POLL_INTERVAL_NS)),
            RoundPhase::ReadRemaining => Step::Do(
                ManagerAction::Local(Access::Load(LocalCell::TokensRemaining)),
            ),
            RoundPhase::EmptyBucket => Step::Do(
                ManagerAction::Local(Access::Store(LocalCell::TokensRemaining, 0)),
            ),
            RoundPhase::CloseBeat(beat) => match beat.asks(self.manager) {
                Step::Do(action) => Step::Do(action),
                _ => Step::Do(ManagerAction::Yield),
            },
            RoundPhase::SetMeasuring => Step::Do(
                ManagerAction::Local(Access::Store(LocalCell::State, STATE_MEASURING as u64)),
            ),
            RoundPhase::WakeMeasuring => Step::Do(ManagerAction::WakeLocal),
            RoundPhase::MarkReport => Step::Do(ManagerAction::Monotonic),
            RoundPhase::MarkBeat => Step::Do(ManagerAction::Monotonic),
            RoundPhase::PollJoined => Step::Do(
                ManagerAction::Local(Access::Load(LocalCell::ActiveWorkers)),
            ),
            RoundPhase::PollReported(_) => Step::Do(
                ManagerAction::Local(Access::Load(LocalCell::ReportedCount)),
            ),
            RoundPhase::CheckGrace => Step::Do(ManagerAction::Monotonic),
            RoundPhase::CheckBeat => Step::Do(ManagerAction::Monotonic),
            RoundPhase::ReportBeat(beat) => match beat.asks(self.manager) {
                Step::Do(action) => Step::Do(action),
                _ => Step::Do(ManagerAction::Yield),
            },
            RoundPhase::RemarkBeat => Step::Do(ManagerAction::Monotonic),
            RoundPhase::ReportYield => Step::Do(ManagerAction::Yield),
            RoundPhase::Collect(scan) => match scan.asks() {
                Step::Do(action) => Step::Do(action),
                _ => Step::Overflow,
            },
            RoundPhase::SetIdle(_, _) => Step::Do(
                ManagerAction::Local(Access::Store(LocalCell::State, STATE_IDLE as u64)),
            ),
            RoundPhase::Finished(duration, used) => Step::Done((duration, used)),
            RoundPhase::Overflowed => Step::Overflow,
        }
    }

    /// The round once no more tokens are to be handed out.
    pub open spec fn ended(self) -> LocalRound {
        if self.consumed == 0 {
            self.at(RoundPhase::ReadRemaining)
        } else {
            self.at(RoundPhase::EmptyBucket)
        }
    }

    /// The round that ends with some tokens left.
    pub open spec fn ended_with(self, left: u64) -> LocalRound {
        LocalRound { consumed: tokens_gone(self.plan.tokens, left), ..self }.ended()
    }

    /// The round that goes on after a look at the bucket.
    pub open spec fn looked(self, current: u64) -> LocalRound {
        LocalRound { last_tokens: current, ..self }.at(RoundPhase::CheckTimeout)
    }

    /// Whether more time than some microseconds has passed since the start.
    pub open spec fn past(self, now: u64, limit_us: u64) -> bool {
        crate::manager::rest::elapsed(now, self.started) > limit_us * 1000
    }

    /// The round once it has the reply to what it asked.
    pub open spec fn next(self, reply: u64) -> LocalRound {
        match self.phase {
            RoundPhase::ReadBatchId => if reply < u64::MAX {
                LocalRound { batch_id: (reply + 1) as u64, ..self }.at(RoundPhase::StoreBatchId)
            } else {
                self.at(RoundPhase::Overflowed)
            },
            RoundPhase::StoreBatchId => self.at(RoundPhase::FillBucket),
            RoundPhase::FillBucket => self.at(RoundPhase::ClearActive),
            RoundPhase::ClearActive => self.at(RoundPhase::ClearReported),
            RoundPhase::ClearReported => self.at(RoundPhase::SetRunning),
            RoundPhase::SetRunning => self.at(RoundPhase::WakeRunning),
            RoundPhase::WakeRunning => self.at(RoundPhase::MarkStart),
            RoundPhase::MarkStart => LocalRound { started: reply, ..self }.at(
                RoundPhase::PollTokens,
            ),
            RoundPhase::PollTokens => if reply == 0 {
                self.ended()
            } else if self.fixed_share_ratio {
                self.at(RoundPhase::CheckBudget(reply))
            } else if reply < self.last_tokens {
                LocalRound { saw_progress: true, ..self }.looked(reply)
            } else {
                self.at(RoundPhase::PollActive(reply))
            },
            RoundPhase::CheckBudget(current) => if crate::manager::rest::elapsed(
                reply,
                self.started,
            ) >= self.plan.expected_run_us * 1000 {
                self.ended_with(current)
            } else {
                self.looked(current)
            },
            RoundPhase::PollActive(current) => if reply > 0 {
                LocalRound { saw_progress: true, ..self }.looked(current)
            } else if self.saw_progress {
                self.looked(current)
            } else {
                self.at(RoundPhase::CheckProgress(current))
            },
            RoundPhase::CheckProgress(current) => if crate::manager::rest::elapsed(
                reply,
                self.started,
            ) > NO_PROGRESS_NS {
                self.ended()
            } else {
                self.looked(current)
            },
            RoundPhase::CheckTimeout => if self.past(reply, self.plan.time_limit_us) {
                self.at(RoundPhase::ReadLeft)
            } else {
                self.at(RoundPhase::PollBeat(Heartbeat::ReadForTurn))
            },
            RoundPhase::ReadLeft => self.ended_with(reply),
            RoundPhase::PollBeat(beat) => match beat.next(reply) {
                Heartbeat::Finished => self.at(RoundPhase::PollSleep),
                further => self.at(RoundPhase::PollBeat(further)),
            },
            RoundPhase::PollSleep => self.at(RoundPhase::PollTokens),
            RoundPhase::ReadRemaining => LocalRound {
                consumed: tokens_gone(self.plan.tokens, reply),
                ..self
            }.at(RoundPhase::EmptyBucket),
            RoundPhase::EmptyBucket => self.at(RoundPhase::CloseBeat(Heartbeat::ReadForTurn)),
            RoundPhase::CloseBeat(beat) => match beat.next(reply) {
                Heartbeat::Finished => self.at(RoundPhase::SetMeasuring),
                further => self.at(RoundPhase::CloseBeat(further)),
            },
            RoundPhase::SetMeasuring => self.at(RoundPhase::WakeMeasuring),
            RoundPhase::WakeMeasuring => self.at(RoundPhase::MarkReport),
            RoundPhase::MarkReport => LocalRound { closed: reply, ..self }.at(RoundPhase::MarkBeat),
            RoundPhase::MarkBeat => LocalRound { last_beat: reply, ..self }.at(
                RoundPhase::PollJoined,
            ),
            RoundPhase::PollJoined => self.at(RoundPhase::PollReported(reply)),
            RoundPhase::PollReported(joined) => if reply >= joined {
                self.collecting()
            } else {
                self.at(RoundPhase::CheckGrace)
            },
            RoundPhase::CheckGrace => if crate::manager::rest::elapsed(reply, self.closed)
                > report_grace(self.plan.time_limit_us) {
                self.collecting()
            } else {
                self.at(RoundPhase::CheckBeat)
            },
            RoundPhase::CheckBeat => if crate::manager::rest::elapsed(reply, self.last_beat)
                > HEARTBEAT_INTERVAL_NS {
                self.at(RoundPhase::ReportBeat(Heartbeat::ReadForTurn))
            } else {
                self.at(RoundPhase::ReportYield)
            },
            RoundPhase::ReportBeat(beat) => match beat.next(reply) {
                Heartbeat::Finished => self.at(RoundPhase::RemarkBeat),
                further => self.at(RoundPhase::ReportBeat(further)),
            },
            RoundPhase::RemarkBeat => LocalRound { last_beat: reply, ..self }.at(
                RoundPhase::ReportYield,
            ),
            RoundPhase::ReportYield => self.at(RoundPhase::PollJoined),
            RoundPhase::Collect(scan) => {
                let further = scan.next(reply);
                match further.asks() {
                    Step::Do(_) => self.at(RoundPhase::Collect(further)),
                    Step::Done(totals) => self.at(RoundPhase::SetIdle(totals.0, totals.1)),
                    Step::Overflow => self.at(RoundPhase::Overflowed),
                }
            },
            RoundPhase::SetIdle(duration, used) => self.at(RoundPhase::Finished(duration, used)),
            RoundPhase::Finished(_, _) => self,
            RoundPhase::Overflowed => self,
        }
    }

    /// The round once it collects reports.
    pub open spec fn collecting(self) -> LocalRound {
        self.at(RoundPhase::Collect(ReportScan::initial(self.batch_id, self.consumed)))
    }

    fn step_beat(&self, beat: &Heartbeat, otherwise: ManagerAction) -> (step: Step<
        ManagerAction,
        (u64, u64),
    >)
        ensures
            step == (match beat.asks(self.manager) {
                Step::Do(action) => Step::<ManagerAction, (u64, u64)>::Do(action),
                _ => Step::Do(otherwise),
            }),
    {
        match beat.step(self.manager) {
            Step::Do(action) => Step::Do(action),
            _ => Step::Do(otherwise),
        }
    }

    /// Tells what to do next.
    pub fn step(&self) -> (step: Step<ManagerAction, (u64, u64)>)
        ensures
            step == self.asks(),
    {
        let access = match &self.phase {
            RoundPhase::ReadBatchId => Access::Load(LocalCell::BatchId),
            RoundPhase::StoreBatchId => Access::Store(LocalCell::BatchId, self.batch_id),
            RoundPhase::FillBucket => Access::Store(LocalCell::TokensRemaining, self.plan.tokens),
            RoundPhase::ClearActive => Access::Store(LocalCell::ActiveWorkers, 0),
            RoundPhase::ClearReported => Access::Store(LocalCell::ReportedCount, 0),
            RoundPhase::SetRunning => Access::Store(LocalCell::State, STATE_RUNNING as u64),
            RoundPhase::PollTokens => Access::Load(LocalCell::TokensRemaining),
            RoundPhase::PollActive(_) => Access::Load(LocalCell::ActiveWorkers),
            RoundPhase::ReadLeft => Access::Load(LocalCell::TokensRemaining),
            RoundPhase::ReadRemaining => Access::Load(LocalCell::TokensRemaining),
            RoundPhase::EmptyBucket => Access::Store(LocalCell::TokensRemaining, 0),
            RoundPhase::SetMeasuring => Access::Store(LocalCell::State, STATE_MEASURING as u64),
            RoundPhase::PollJoined => Access::Load(LocalCell::ActiveWorkers),
            RoundPhase::PollReported(_) => Access::Load(LocalCell::ReportedCount),
            RoundPhase::SetIdle(_, _) => Access::Store(LocalCell::State, STATE_IDLE as u64),
            RoundPhase::WakeRunning | RoundPhase::WakeMeasuring => {
                return Step::Do(ManagerAction::WakeLocal);
            },
            RoundPhase::MarkStart | RoundPhase::CheckTimeout | RoundPhase::MarkReport
            | RoundPhase::MarkBeat | RoundPhase::CheckGrace | RoundPhase::CheckBeat
            | RoundPhase::RemarkBeat => {
                return Step::Do(ManagerAction::Monotonic);
            },
            RoundPhase::CheckBudget(_) | RoundPhase::CheckProgress(_) => {
                return Step::Do(ManagerAction::Monotonic);
            },
            RoundPhase::PollBeat(beat) => {
                return self.step_beat(beat, ManagerAction::Sleep(POLL_INTERVAL_NS));
            },
            RoundPhase::PollSleep => {
                return Step::Do(ManagerAction::Sleep(POLL_INTERVAL_NS));
            },
            RoundPhase::CloseBeat(beat) => {
                return self.step_beat(beat, ManagerAction::Yield);
            },
            RoundPhase::ReportBeat(beat) => {
                return self.step_beat(beat, ManagerAction::Yield);
            },
            RoundPhase::ReportYield => {
                return Step::Do(ManagerAction::Yield);
            },
            RoundPhase::Collect(scan) => {
                return match scan.step() {
                    Step::Do(action) => Step::Do(action),
                    _ => Step::Overflow,
                };
            },
            RoundPhase::Finished(duration, used) => {
                return Step::Done((*duration, *used));
            },
            RoundPhase::Overflowed => {
                return Step::Overflow;
            },
        };
        Step::Do(ManagerAction::Local(access))
    }

    fn end(&mut self)
        ensures
            *final(self) == old(self).ended(),
    {
        if self.consumed == 0 {
            self.phase = RoundPhase::ReadRemaining;
        } else {
            self.phase = RoundPhase::EmptyBucket;
        }
    }

    fn gone(&self, left: u64) -> (tokens: u64)
        ensures
            tokens == tokens_gone(self.plan.tokens, left),
    {
        if self.plan.tokens > left {
            self.plan.tokens - left
        } else {
            0
        }
    }

    fn look(&mut self, current: u64)
        ensures
            *final(self) == old(self).looked(current),
    {
        self.last_tokens = current;
        self.phase = RoundPhase::CheckTimeout;
    }

    fn collect(&mut self)
        ensures
            *final(self) == old(self).collecting(),
    {
        self.phase = RoundPhase::Collect(ReportScan::start(self.batch_id, self.consumed));
    }

    fn since(now: u64, moment: u64) -> (ns: u64)
        ensures
            ns == crate::manager::rest::elapsed(now, moment),
    {
        if now > moment {
            now - moment
        } else {
            0
        }
    }

    fn grace(&self) -> (ns: u128)
        ensures
            ns == report_grace(self.plan.time_limit_us),
    {
        let quarter: u128 = (self.plan.time_limit_us / 4) as u128 * 1000 + REPORT_MARGIN_NS as u128;
        if quarter > LOCAL_REPORT_GRACE_NS as u128 {
            quarter
        } else {
            LOCAL_REPORT_GRACE_NS as u128
        }
    }

    /// Takes the reply to what was asked.
    pub fn advance(&mut self, reply: u64)
        ensures
            *final(self) == old(self).next(reply),
    {
        match self.phase {
            RoundPhase::ReadBatchId => {
                if reply < u64::MAX {
                    self.batch_id = reply + 1;
                    self.phase = RoundPhase::StoreBatchId;
                } else {
                    self.phase = RoundPhase::Overflowed;
                }
            },
            RoundPhase::StoreBatchId => {
                self.phase = RoundPhase::FillBucket;
            },
            RoundPhase::FillBucket => {
                self.phase = RoundPhase::ClearActive;
            },
            RoundPhase::ClearActive => {
                self.phase = RoundPhase::ClearReported;
            },
            RoundPhase::ClearReported => {
                self.phase = RoundPhase::SetRunning;
            },
            RoundPhase::SetRunning => {
                self.phase = RoundPhase::WakeRunning;
            },
            RoundPhase::WakeRunning => {
                self.phase = RoundPhase::MarkStart;
            },
            RoundPhase::MarkStart => {
                self.started = reply;
                self.phase = RoundPhase::PollTokens;
            },
            RoundPhase::PollTokens => {
                if reply == 0 {
                    self.end();
                } else if self.fixed_share_ratio {
                    self.phase = RoundPhase::CheckBudget(reply);
                } else if reply < self.last_tokens {
                    self.saw_progress = true;
                    self.look(reply);
                } else {
                    self.phase = RoundPhase::PollActive(reply);
                }
            },
            RoundPhase::CheckBudget(current) => {
                if Self::since(reply, self.started) as u128 >= self.plan.expected_run_us as u128
                    * 1000 {
                    self.consumed = self.gone(current);
                    self.end();
                } else {
                    self.look(current);
                }
            },
            RoundPhase::PollActive(current) => {
                if reply > 0 {
                    self.saw_progress = true;
                }
                if self.saw_progress {
                    self.look(current);
                } else {
                    self.phase = RoundPhase::CheckProgress(current);
                }
            },
            RoundPhase::CheckProgress(current) => {
                if Self::since(reply, self.started) > NO_PROGRESS_NS {
                    self.end();
                } else {
                    self.look(current);
                }
            },
            RoundPhase::CheckTimeout => {
                if Self::since(reply, self.started) as u128 > self.plan.time_limit_us as u128
                    * 1000 {
                    self.phase = RoundPhase::ReadLeft;
                } else {
                    self.phase = RoundPhase::PollBeat(Heartbeat::start());
                }
            },
            RoundPhase::ReadLeft => {
                self.consumed = self.gone(reply);
                self.end();
            },
            RoundPhase::PollBeat(beat) => {
                let mut further = beat;
                further.advance(reply);
                self.phase = match further {
                    Heartbeat::Finished => RoundPhase::PollSleep,
                    _ => RoundPhase::PollBeat(further),
                };
            },
            RoundPhase::PollSleep => {
                self.phase = RoundPhase::PollTokens;
            },
            RoundPhase::ReadRemaining => {
                self.consumed = self.gone(reply);
                self.phase = RoundPhase::EmptyBucket;
            },
            RoundPhase::EmptyBucket => {
                self.phase = RoundPhase::CloseBeat(Heartbeat::start());
            },
            RoundPhase::CloseBeat(beat) => {
                let mut further = beat;
                further.advance(reply);
                self.phase = match further {
                    Heartbeat::Finished => RoundPhase::SetMeasuring,
                    _ => RoundPhase::CloseBeat(further),
                };
            },
            RoundPhase::SetMeasuring => {
                self.phase = RoundPhase::WakeMeasuring;
            },
            RoundPhase::WakeMeasuring => {
                self.phase = RoundPhase::MarkReport;
            },
            RoundPhase::MarkReport => {
                self.closed = reply;
                self.phase = RoundPhase::MarkBeat;
            },
            RoundPhase::MarkBeat => {
                self.last_beat = reply;
                self.phase = RoundPhase::PollJoined;
            },
            RoundPhase::PollJoined => {
                self.phase = RoundPhase::PollReported(reply);
            },
            RoundPhase::PollReported(joined) => {
                if reply >= joined {
                    self.collect();
                } else {
                    self.phase = RoundPhase::CheckGrace;
                }
            },
            RoundPhase::CheckGrace => {
                if Self::since(reply, self.closed) as u128 > self.grace() {
                    self.collect();
                } else {
                    self.phase = RoundPhase::CheckBeat;
                }
            },
            RoundPhase::CheckBeat => {
                if Self::since(reply, self.last_beat) > HEARTBEAT_INTERVAL_NS {
                    self.phase = RoundPhase::ReportBeat(Heartbeat::start());
                } else {
                    self.phase = RoundPhase::ReportYield;
                }
            },
            RoundPhase::ReportBeat(beat) => {
                let mut further = beat;
                further.advance(reply);
                self.phase = match further {
                    Heartbeat::Finished => RoundPhase::RemarkBeat,
                    _ => RoundPhase::ReportBeat(further),
                };
            },
            RoundPhase::RemarkBeat => {
                self.last_beat = reply;
                self.phase = RoundPhase::ReportYield;
            },
            RoundPhase::ReportYield => {
                self.phase = RoundPhase::PollJoined;
            },
            RoundPhase::Collect(scan) => {
                let mut further = scan;
                further.advance(reply);
                self.phase = match further.step() {
                    Step::Do(_) => RoundPhase::Collect(further),
                    Step::Done(totals) => RoundPhase::SetIdle(totals.0, totals.1),
                    Step::Overflow => RoundPhase::Overflowed,
                };
            },
            RoundPhase::SetIdle(duration, used) => {
                self.phase = RoundPhase::Finished(duration, used);
            },
            RoundPhase::Finished(_, _) => {},
            RoundPhase::Overflowed => {},
        }
    }
}

impl ContainerManager {
    /// Starts a batch.
    pub fn run_local_round(&self, plan: &SharePlan) -> (round: LocalRound)
        ensures
            round == LocalRound::initial(self, *plan),
    {
        LocalRound {
            manager: self.my_global_idx,
            fixed_share_ratio: self.fixed_share_ratio,
            plan: *plan,
            batch_id: 0,
            started: 0,
            last_tokens: plan.tokens,
            saw_progress: false,
            consumed: 0,
            closed: 0,
            last_beat: 0,
            phase: RoundPhase::ReadBatchId,
        }
    }
}

impl LocalRound {
    /// The round after a sequence of replies.
    pub open spec fn after(self, replies: Seq<u64>) -> LocalRound
        decreases replies.len(),
    {
        if replies.len() == 0 {
            self
        } else {
            self.after(replies.drop_last()).next(replies.last())
        }
    }

    /// The words that the round has stored in a cell, in order.
    pub open spec fn stored(self, cell: LocalCell, replies: Seq<u64>) -> Seq<u64>
        decreases replies.len(),
    {
        if replies.len() == 0 {
            Seq::empty()
        } else {
            let before = self.stored(cell, replies.drop_last());
            match self.after(replies.drop_last()).asks() {
                Step::Do(ManagerAction::Local(Access::Store(c, word))) => if c == cell {
                    before.push(word)
                } else {
                    before
                },
                _ => before,
            }
        }
    }

    /// How far the round has come: before the batch, while it runs, while it is
    /// measured, or after it.
    pub open spec fn part(self) -> int {
        match self.phase {
            RoundPhase::ReadBatchId | RoundPhase::StoreBatchId | RoundPhase::FillBucket
            | RoundPhase::ClearActive | RoundPhase::ClearReported | RoundPhase::SetRunning => 0,
            RoundPhase::WakeRunning | RoundPhase::MarkStart | RoundPhase::PollTokens
            | RoundPhase::CheckBudget(_) | RoundPhase::PollActive(_)
            | RoundPhase::CheckProgress(_) | RoundPhase::CheckTimeout | RoundPhase::ReadLeft
            | RoundPhase::PollBeat(_) | RoundPhase::PollSleep | RoundPhase::ReadRemaining
            | RoundPhase::EmptyBucket | RoundPhase::CloseBeat(_) | RoundPhase::SetMeasuring => 1,
            RoundPhase::WakeMeasuring | RoundPhase::MarkReport | RoundPhase::MarkBeat
            | RoundPhase::PollJoined | RoundPhase::PollReported(_) | RoundPhase::CheckGrace
            | RoundPhase::CheckBeat | RoundPhase::ReportBeat(_) | RoundPhase::RemarkBeat
            | RoundPhase::ReportYield | RoundPhase::Collect(_) | RoundPhase::SetIdle(_, _) => 2,
            RoundPhase::Finished(_, _) => 3,
            RoundPhase::Overflowed => 4,
        }
    }

    /// What the workers have been shown of the batch.
    pub open spec fn shown_states(self) -> Seq<u64> {
        if self.part() == 0 {
            Seq::empty()
        } else if self.part() == 1 {
            seq![STATE_RUNNING as u64]
        } else if self.part() == 2 {
            seq![STATE_RUNNING as u64, STATE_MEASURING as u64]
        } else {
            seq![STATE_RUNNING as u64, STATE_MEASURING as u64, STATE_IDLE as u64]
        }
    }

    /// Whether the bucket has been filled for the batch.
    pub open spec fn filled(self) -> bool {
        match self.phase {
            RoundPhase::ReadBatchId | RoundPhase::StoreBatchId | RoundPhase::FillBucket => false,
            _ => true,
        }
    }

    /// Whether the bucket has been emptied after the batch.
    pub open spec fn emptied(self) -> bool {
        match self.phase {
            RoundPhase::CloseBeat(_) | RoundPhase::SetMeasuring => true,
            _ => self.part() >= 2,
        }
    }

    /// Whether the round is one that replies can lead to.
    pub open spec fn sound(self) -> bool {
        &&& self.consumed <= self.plan.tokens
        &&& match self.phase {
            RoundPhase::CheckBudget(_) => self.fixed_share_ratio,
            RoundPhase::PollActive(_) => !self.fixed_share_ratio,
            RoundPhase::CheckProgress(_) => !self.fixed_share_ratio && !self.saw_progress,
            RoundPhase::PollBeat(beat) => !(beat is Finished),
            RoundPhase::CloseBeat(beat) => !(beat is Finished),
            RoundPhase::ReportBeat(beat) => !(beat is Finished),
            RoundPhase::Collect(scan) => {
                &&& scan.asks() is Do
                &&& scan.tokens == self.consumed
                &&& scan.batch_id == self.batch_id
            },
            RoundPhase::SetIdle(_, used) => used == 0 || used == self.consumed,
            RoundPhase::Finished(_, used) => used == 0 || used == self.consumed,
            _ => true,
        }
    }
}

impl LocalRound {
    /// Whether tokens are being handed out.
    pub open spec fn handing_out(self) -> bool {
        match self.phase {
            RoundPhase::PollTokens | RoundPhase::CheckBudget(_) | RoundPhase::PollActive(_)
            | RoundPhase::CheckProgress(_) | RoundPhase::CheckTimeout | RoundPhase::PollBeat(_)
            | RoundPhase::PollSleep => true,
            _ => false,
        }
    }

    /// Whether the manager waits for reports.
    pub open spec fn awaiting_reports(self) -> bool {
        match self.phase {
            RoundPhase::PollJoined | RoundPhase::PollReported(_) | RoundPhase::CheckGrace
            | RoundPhase::CheckBeat | RoundPhase::ReportBeat(_) | RoundPhase::RemarkBeat
            | RoundPhase::ReportYield => true,
            _ => false,
        }
    }
}

/// Tokens are handed out until none is left, or time is up. A fixed share holds
/// its turn for its whole budget, whether or not anybody works; otherwise a batch
/// in which nobody has made progress is given up early.
pub proof fn law_batch_ends_for_cause(round: LocalRound, reply: u64)
    requires
        round.sound(),
        round.handing_out(),
        !round.next(reply).handing_out(),
    ensures
        ({
            let passed = crate::manager::rest::elapsed(reply, round.started);
            match round.phase {
                RoundPhase::PollTokens => reply == 0,
                RoundPhase::CheckBudget(_) => round.fixed_share_ratio && passed
                    >= round.plan.expected_run_us * 1000,
                RoundPhase::CheckProgress(_) => !round.fixed_share_ratio && !round.saw_progress
                    && passed > NO_PROGRESS_NS,
                RoundPhase::CheckTimeout => passed > round.plan.time_limit_us * 1000,
                _ => false,
            }
        }),
{
}

/// The manager waits for reports until everybody who joined the batch has
/// reported, or until the grace that it grants is over.
pub proof fn law_reports_are_awaited(round: LocalRound, reply: u64)
    requires
        round.awaiting_reports(),
        !round.next(reply).awaiting_reports(),
    ensures
        match round.phase {
            RoundPhase::PollReported(joined) => reply >= joined,
            RoundPhase::CheckGrace => crate::manager::rest::elapsed(reply, round.closed)
                > report_grace(round.plan.time_limit_us),
            _ => false,
        },
        report_grace(round.plan.time_limit_us) >= LOCAL_REPORT_GRACE_NS,
        report_grace(round.plan.time_limit_us) >= (round.plan.time_limit_us / 4) * 1000,
{
}

/// A manager that waits for reports shows itself often enough to keep its turn:
/// it goes on waiting without a heartbeat only while the last one is recent, by
/// far less than others wait before they take the turn away.
pub proof fn law_silence_is_short(round: LocalRound, reply: u64)
    requires
        round.phase is CheckBeat,
    ensures
        round.next(reply).phase is ReportYield ==> crate::manager::rest::elapsed(
            reply,
            round.last_beat,
        ) <= HEARTBEAT_INTERVAL_NS,
        !(round.next(reply).phase is ReportYield) ==> round.next(reply).phase
            == RoundPhase::ReportBeat(Heartbeat::ReadForTurn),
        HEARTBEAT_INTERVAL_NS * 10 <= GLOBAL_WATCHDOG_TIMEOUT_US * 1000,
{
}

/// Whatever workers do meanwhile, a round stays one that replies can lead to.
pub proof fn law_round_stays_sound(manager: ContainerManager, plan: SharePlan, replies: Seq<u64>)
    ensures
        LocalRound::initial(&manager, plan).after(replies).sound(),
        LocalRound::initial(&manager, plan).after(replies).plan == plan,
        LocalRound::initial(&manager, plan).after(replies).manager == manager.my_global_idx,
    decreases replies.len(),
{
    if replies.len() > 0 {
        law_round_stays_sound(manager, plan, replies.drop_last());
    }
}

/// Whatever workers do meanwhile, a batch never counts more tokens than were
/// handed out.
pub proof fn law_tokens_used_within_plan(
    manager: ContainerManager,
    plan: SharePlan,
    replies: Seq<u64>,
    duration_us: u64,
    used: u64,
)
    requires
        LocalRound::initial(&manager, plan).after(replies).asks() == Step::<
            ManagerAction,
            (u64, u64),
        >::Done((duration_us, used)),
    ensures
        used <= plan.tokens,
{
    law_round_stays_sound(manager, plan, replies);
}

/// Whatever workers do meanwhile, they are shown a batch in order: it runs, it
/// is measured, it is over. A round that overflows has stopped before the last.
pub proof fn law_states_are_shown_in_order(
    manager: ContainerManager,
    plan: SharePlan,
    replies: Seq<u64>,
)
    ensures
        ({
            let round = LocalRound::initial(&manager, plan);
            let end = round.after(replies);
            if end.phase is Overflowed {
                round.stored(LocalCell::State, replies).is_prefix_of(
                    seq![STATE_RUNNING as u64, STATE_MEASURING as u64],
                )
            } else {
                round.stored(LocalCell::State, replies) == end.shown_states()
            }
        }),
    decreases replies.len(),
{
    let round = LocalRound::initial(&manager, plan);
    if replies.len() > 0 {
        let few = replies.drop_last();
        law_states_are_shown_in_order(manager, plan, few);
        law_round_stays_sound(manager, plan, few);
        let seen = round.after(few);
        let end = round.after(replies);
        assert(seq![STATE_RUNNING as u64].push(STATE_MEASURING as u64) =~= seq![
            STATE_RUNNING as u64,
            STATE_MEASURING as u64,
        ]);
        assert(Seq::<u64>::empty().push(STATE_RUNNING as u64) =~= seq![STATE_RUNNING as u64]);
        assert(seq![STATE_RUNNING as u64, STATE_MEASURING as u64].push(STATE_IDLE as u64) =~= seq![
            STATE_RUNNING as u64,
            STATE_MEASURING as u64,
            STATE_IDLE as u64,
        ]);
    }
}

/// Whatever workers do meanwhile, the bucket is filled once, with the tokens of
/// the plan, before the batch runs, and emptied once, before it is measured.
pub proof fn law_bucket_is_filled_and_emptied(
    manager: ContainerManager,
    plan: SharePlan,
    replies: Seq<u64>,
)
    ensures
        ({
            let round = LocalRound::initial(&manager, plan);
            let end = round.after(replies);
            let stored = round.stored(LocalCell::TokensRemaining, replies);
            end.phase is Overflowed || stored == if end.emptied() {
                seq![plan.tokens, 0u64]
            } else if end.filled() {
                seq![plan.tokens]
            } else {
                Seq::empty()
            }
        }),
    decreases replies.len(),
{
    let round = LocalRound::initial(&manager, plan);
    if replies.len() > 0 {
        let few = replies.drop_last();
        law_bucket_is_filled_and_emptied(manager, plan, few);
        law_round_stays_sound(manager, plan, few);
        assert(Seq::<u64>::empty().push(plan.tokens) =~= seq![plan.tokens]);
        assert(seq![plan.tokens].push(0u64) =~= seq![plan.tokens, 0u64]);
    }
}

impl LocalRound {
    /// The round and the local segment after some replies, when nobody else
    /// changes the segment and clocks show 0.
    pub open spec fn lone_run(self, memory: Map<LocalCell, u64>, replies: nat) -> (
        LocalRound,
        Map<LocalCell, u64>,
    )
        decreases replies,
    {
        if replies == 0 {
            (self, memory)
        } else {
            match self.asks() {
                Step::Do(ManagerAction::Local(access)) => self.next(
                    memory[access.cell()],
                ).lone_run(crate::access::effect(memory, access), (replies - 1) as nat),
                Step::Do(_) => self.next(0).lone_run(memory, (replies - 1) as nat),
                _ => (self, memory),
            }
        }
    }

    /// Whether the round ends after some replies with the totals of its batch, in
    /// a segment that nobody else changes meanwhile.
    pub open spec fn sums_up(self, memory: Map<LocalCell, u64>, replies: nat) -> bool {
        match self.lone_run(memory, replies).0.phase {
            RoundPhase::Finished(duration, used) => crate::manager::report::batch_totals(
                memory,
                self.batch_id,
                self.consumed,
                (duration, used),
            ),
            _ => false,
        }
    }
}

proof fn lemma_collection_ends(
    round: LocalRound,
    scan: ReportScan,
    memory: Map<LocalCell, u64>,
) -> (replies: nat)
    requires
        round.phase == RoundPhase::Collect(scan),
        scan.batch_id == round.batch_id,
        scan.tokens == round.consumed,
        scan.asks() is Do,
        scan.runs(memory),
        forall|c: LocalCell| crate::access::Cell::valid(c) ==> #[trigger] memory.dom().contains(c),
        forall|i: int|
            0 <= i < MAX_WORKERS && #[trigger] crate::manager::report::took_part(
                memory,
                round.batch_id,
                i,
            ) ==> crate::manager::report::work_end(memory, i) <= u64::MAX,
    ensures
        round.sums_up(memory, replies),
    decreases scan.remaining(),
{
    crate::manager::report::lemma_report_turn(scan, memory);
    match scan.asks() {
        Step::Do(ManagerAction::Local(Access::Load(cell))) => {
            let further = scan.next(memory[cell]);
            let after = round.next(memory[cell]);
            assert(crate::access::effect(memory, Access::Load(cell)) =~= memory);
            match further.asks() {
                Step::Do(_) => {
                    let few = lemma_collection_ends(after, further, memory);
                    few + 1
                },
                Step::Done(totals) => {
                    crate::manager::report::lemma_report_done(further, memory, totals);
                    reveal_with_fuel(LocalRound::lone_run, 3);
                    2
                },
                Step::Overflow => 0,
            }
        },
        _ => 0,
    }
}

/// The result of a round is made of what the workers have reported of the batch
/// when it is collected: from the earliest start to the latest end, with the
/// tokens that were used, or nothing where nobody has reported any work.
pub proof fn law_round_sums_reports_up(round: LocalRound, memory: Map<LocalCell, u64>)
    requires
        forall|c: LocalCell| crate::access::Cell::valid(c) ==> #[trigger] memory.dom().contains(c),
        forall|i: int|
            0 <= i < MAX_WORKERS && #[trigger] crate::manager::report::took_part(
                memory,
                round.batch_id,
                i,
            ) ==> crate::manager::report::work_end(memory, i) <= u64::MAX,
    ensures
        exists|replies: nat| #[trigger] round.collecting().sums_up(memory, replies),
{
    let scan = ReportScan::initial(round.batch_id, round.consumed);
    let replies = lemma_collection_ends(round.collecting(), scan, memory);
    assert(round.collecting().sums_up(memory, replies));
}

/// A batch is opened under the next number, with the plan's tokens in the bucket
/// and nobody in it, before workers are let in; they are woken then.
pub proof fn law_batch_is_opened(
    manager: ContainerManager,
    plan: SharePlan,
    memory: Map<LocalCell, u64>,
)
    requires
        memory.dom().contains(LocalCell::BatchId),
        memory[LocalCell::BatchId] < u64::MAX,
    ensures
        ({
            let end = LocalRound::initial(&manager, plan).lone_run(memory, 6);
            &&& end.0.asks() == Step::<ManagerAction, (u64, u64)>::Do(ManagerAction::WakeLocal)
            &&& end.0.batch_id == memory[LocalCell::BatchId] + 1
            &&& end.1 == memory.insert(LocalCell::BatchId, end.0.batch_id).insert(
                LocalCell::TokensRemaining,
                plan.tokens,
            ).insert(LocalCell::ActiveWorkers, 0).insert(LocalCell::ReportedCount, 0).insert(
                LocalCell::State,
                STATE_RUNNING as u64,
            )
        }),
{
    assert(memory.insert(LocalCell::BatchId, memory[LocalCell::BatchId]) =~= memory);
    crate::access::lemma_fit_keeps(Width::W64, memory[LocalCell::BatchId] + 1);
    crate::access::lemma_fit_keeps(Width::W64, plan.tokens as int);
    crate::access::lemma_fit_keeps(Width::W32, STATE_RUNNING as int);
    reveal_with_fuel(LocalRound::lone_run, 7);
}

/// A batch is closed by emptying the bucket before workers are asked to report;
/// they are woken then.
pub proof fn law_batch_is_closed(round: LocalRound, memory: Map<LocalCell, u64>)
    requires
        round.phase is EmptyBucket,
    ensures
        ({
            let end = round.lone_run(memory, 6);
            &&& end.0.asks() == Step::<ManagerAction, (u64, u64)>::Do(ManagerAction::WakeLocal)
            &&& end.1 == memory.insert(LocalCell::TokensRemaining, 0).insert(
                LocalCell::State,
                STATE_MEASURING as u64,
            )
        }),
{
    crate::access::lemma_fit_keeps(Width::W32, STATE_MEASURING as int);
    reveal_with_fuel(LocalRound::lone_run, 7);
}

impl LocalRound {
    /// The last reply to a load of a cell of the local segment, if there was one.
    pub open spec fn last_read(self, cell: LocalCell, replies: Seq<u64>) -> Option<u64>
        decreases replies.len(),
    {
        if replies.len() == 0 {
            None
        } else if self.after(replies.drop_last()).asks() == Step::<ManagerAction, (u64, u64)>::Do(
            ManagerAction::Local(Access::Load(cell)),
        ) {
            Some(replies.last())
        } else {
            self.last_read(cell, replies.drop_last())
        }
    }

    /// Whether the round asks for an action.
    pub open spec fn asks_for(self, action: ManagerAction) -> bool {
        self.asks() == Step::<ManagerAction, (u64, u64)>::Do(action)
    }

    /// Whether the round stops handing out: it empties the bucket, after one more
    /// look at it at most.
    pub open spec fn stops(self) -> bool {
        let load = ManagerAction::Local(Access::Load(LocalCell::TokensRemaining));
        let empty = ManagerAction::Local(Access::Store(LocalCell::TokensRemaining, 0));
        ||| self.asks_for(empty)
        ||| self.asks_for(load) && forall|left: u64| (#[trigger] self.next(left)).asks_for(empty)
    }

    /// Whether the round goes on after a look at the bucket: it checks the clock, and
    /// stops after a last look once the batch's time is over, else shows that it is
    /// alive and sleeps.
    pub open spec fn goes_on(self, plan: SharePlan, started: u64, left: u64, seen: bool) -> bool {
        &&& self.asks_for(ManagerAction::Monotonic)
        &&& self.plan == plan && self.started == started && self.last_tokens == left
        &&& self.saw_progress == seen
        &&& forall|now: u64|
            {
                let further = #[trigger] self.next(now);
                if now > started + plan.time_limit_us * 1000 {
                    &&& further.asks_for(
                        ManagerAction::Local(Access::Load(LocalCell::TokensRemaining)),
                    )
                    &&& forall|l: u64| (#[trigger] further.next(l)).stops()
                } else {
                    further == (LocalRound {
                        phase: RoundPhase::PollBeat(Heartbeat::ReadForTurn),
                        ..self
                    })
                }
            }
    }
}

proof fn lemma_consumed_is_gone(manager: ContainerManager, plan: SharePlan, replies: Seq<u64>)
    ensures
        ({
            let start = LocalRound::initial(&manager, plan);
            let round = start.after(replies);
            let left = start.last_read(LocalCell::TokensRemaining, replies);
            &&& round.plan == plan
            &&& match round.phase {
                RoundPhase::CheckBudget(current) => left == Some(current) && round.consumed == 0,
                RoundPhase::PollActive(current) => left == Some(current) && round.consumed == 0,
                RoundPhase::CheckProgress(current) => left == Some(current) && round.consumed == 0,
                RoundPhase::ReadBatchId | RoundPhase::StoreBatchId | RoundPhase::FillBucket
                | RoundPhase::ClearActive | RoundPhase::ClearReported | RoundPhase::SetRunning
                | RoundPhase::WakeRunning | RoundPhase::MarkStart | RoundPhase::PollTokens
                | RoundPhase::CheckTimeout | RoundPhase::ReadLeft | RoundPhase::PollBeat(_)
                | RoundPhase::PollSleep | RoundPhase::ReadRemaining => round.consumed == 0,
                RoundPhase::Overflowed => true,
                _ => {
                    &&& left is Some
                    &&& left->0 < plan.tokens ==> round.consumed == plan.tokens - left->0
                    &&& left->0 >= plan.tokens ==> round.consumed == 0
                },
            }
        }),
    decreases replies.len(),
{
    if replies.len() > 0 {
        lemma_consumed_is_gone(manager, plan, replies.drop_last());
        law_round_stays_sound(manager, plan, replies.drop_last());
    }
}

/// Whatever workers do meanwhile, the tokens that a round counts are the plan's
/// less what was left at the last look at the bucket before it was emptied, in a
/// fixed share as well as otherwise. A round that counts none has seen no work, or
/// nothing gone.
pub proof fn law_tokens_used_are_tokens_gone(
    manager: ContainerManager,
    plan: SharePlan,
    replies: Seq<u64>,
    duration_us: u64,
    used: u64,
)
    requires
        LocalRound::initial(&manager, plan).after(replies).asks() == Step::<
            ManagerAction,
            (u64, u64),
        >::Done((duration_us, used)),
    ensures
        ({
            let left = LocalRound::initial(&manager, plan).last_read(
                LocalCell::TokensRemaining,
                replies,
            );
            &&& left is Some
            &&& used != 0 ==> used == plan.tokens - left->0
        }),
{
    lemma_consumed_is_gone(manager, plan, replies);
    law_round_stays_sound(manager, plan, replies);
}

/// By the time a round is done it has shown workers a batch that runs, is measured
/// and is over, and has put the plan's tokens in the bucket once and taken them out
/// once, whatever workers did meanwhile.
pub proof fn law_done_round_has_shown_all(
    manager: ContainerManager,
    plan: SharePlan,
    replies: Seq<u64>,
)
    requires
        LocalRound::initial(&manager, plan).after(replies).asks() is Done,
    ensures
        LocalRound::initial(&manager, plan).stored(LocalCell::State, replies) == seq![
            1u64,
            2u64,
            0u64,
        ],
        LocalRound::initial(&manager, plan).stored(LocalCell::TokensRemaining, replies) == seq![
            plan.tokens,
            0u64,
        ],
{
    law_states_are_shown_in_order(manager, plan, replies);
    law_bucket_is_filled_and_emptied(manager, plan, replies);
    law_round_stays_sound(manager, plan, replies);
}

/// Once workers are woken the manager notes the time, and starts to look at the
/// bucket with the plan's tokens in mind and no progress seen.
pub proof fn law_batch_starts_afresh(
    manager: ContainerManager,
    plan: SharePlan,
    memory: Map<LocalCell, u64>,
    reply: u64,
    now: u64,
)
    requires
        memory[LocalCell::BatchId] < u64::MAX,
    ensures
        ({
            let woken = LocalRound::initial(&manager, plan).lone_run(memory, 6).0.next(reply);
            let begun = woken.next(now);
            &&& woken.asks_for(ManagerAction::Monotonic)
            &&& begun.asks_for(ManagerAction::Local(Access::Load(LocalCell::TokensRemaining)))
            &&& begun.phase is PollTokens
            &&& begun.manager == manager.my_global_idx
            &&& begun.fixed_share_ratio == manager.fixed_share_ratio
            &&& begun.plan == plan
            &&& begun.batch_id == memory[LocalCell::BatchId] + 1
            &&& begun.started == now
            &&& begun.last_tokens == plan.tokens
            &&& !begun.saw_progress
            &&& begun.consumed == 0
        }),
{
    reveal_with_fuel(LocalRound::lone_run, 7);
}

/// What a look at the bucket leads to. An empty bucket ends the batch. A fixed share
/// ends it once its budget of time is over, and not before. Otherwise a batch in
/// which no token has gone and nobody is active ends after 5 milliseconds, unless
/// progress has been seen before. In all other cases the round goes on until the
/// time limit.
pub proof fn law_look_at_bucket_decides(round: LocalRound, current: u64)
    requires
        round.phase is PollTokens,
    ensures
        ({
            let looked = round.next(current);
            let plan = round.plan;
            let started = round.started;
            let seen = round.saw_progress;
            if current == 0 {
                round.consumed == 0 ==> looked.stops()
            } else if round.fixed_share_ratio {
                &&& looked.asks_for(ManagerAction::Monotonic)
                &&& forall|now: u64|
                    {
                        let further = #[trigger] looked.next(now);
                        if now >= started + plan.expected_run_us * 1000 && (now > started
                            || plan.expected_run_us == 0) {
                            further.stops()
                        } else if now >= started {
                            further.goes_on(plan, started, current, seen)
                        } else {
                            true
                        }
                    }
            } else if current < round.last_tokens {
                looked.goes_on(plan, started, current, true)
            } else {
                &&& looked.asks_for(ManagerAction::Local(Access::Load(LocalCell::ActiveWorkers)))
                &&& forall|workers: u64|
                    {
                        let further = #[trigger] looked.next(workers);
                        if workers > 0 || seen {
                            further.goes_on(plan, started, current, true)
                        } else {
                            &&& further.asks_for(ManagerAction::Monotonic)
                            &&& forall|now: u64|
                                {
                                    let decided = #[trigger] further.next(now);
                                    if now > started + 5_000_000 {
                                        round.consumed == 0 ==> decided.stops()
                                    } else {
                                        decided.goes_on(plan, started, current, false)
                                    }
                                }
                        }
                    }
            }
        }),
{
}

/// Between two looks at the bucket the manager shows that it is alive, then sleeps
/// for 200 microseconds; while it waits for reports it shows itself and notes when;
/// before it asks for reports it shows itself.
pub proof fn law_round_shows_itself(round: LocalRound, turn: u64, slot: u64, reply: u64)
    requires
        round.phase == RoundPhase::PollBeat(Heartbeat::ReadForTurn) || round.phase
            == RoundPhase::CloseBeat(Heartbeat::ReadForTurn) || round.phase
            == RoundPhase::ReportBeat(Heartbeat::ReadForTurn),
    ensures
        ({
            let first = round.next(turn);
            let second = first.next(reply);
            let third = second.next(slot);
            let shown = third.next(reply);
            &&& round.asks_for(ManagerAction::WallClock)
            &&& first.asks_for(
                ManagerAction::Global(Access::Store(GlobalCell::LockTimestamp, turn)),
            )
            &&& second.asks_for(ManagerAction::WallClock)
            &&& third.asks_for(
                ManagerAction::Global(
                    Access::Store(GlobalCell::SlotHeartbeat(round.manager), slot),
                ),
            )
            &&& shown == (LocalRound { phase: shown.phase, ..round })
            &&& match round.phase {
                RoundPhase::PollBeat(_) => {
                    &&& shown.asks_for(ManagerAction::Sleep(200_000))
                    &&& shown.next(reply) == (LocalRound {
                        phase: RoundPhase::PollTokens,
                        ..round
                    })
                },
                RoundPhase::CloseBeat(_) => {
                    &&& shown.asks_for(ManagerAction::Local(Access::Store(LocalCell::State, 2)))
                    &&& shown.phase is SetMeasuring
                },
                _ => {
                    let noted = shown.next(turn);
                    &&& shown.asks_for(ManagerAction::Monotonic)
                    &&& noted.asks_for(ManagerAction::Yield)
                    &&& noted.next(reply) == (LocalRound {
                        phase: RoundPhase::PollJoined,
                        last_beat: turn,
                        ..round
                    })
                },
            }
        }),
{
}

/// Once the bucket is emptied and workers are asked to report, the manager notes the
/// time twice, for the grace and for its next heartbeat, and starts to wait.
pub proof fn law_wait_for_reports_starts(round: LocalRound, reply: u64, closed: u64, beat: u64)
    requires
        round.phase is SetMeasuring,
    ensures
        ({
            let woken = round.next(reply).next(reply);
            &&& round.next(reply).asks_for(ManagerAction::WakeLocal)
            &&& woken.asks_for(ManagerAction::Monotonic)
            &&& woken.next(closed).asks_for(ManagerAction::Monotonic)
            &&& woken.next(closed).next(beat) == (LocalRound {
                phase: RoundPhase::PollJoined,
                closed,
                last_beat: beat,
                ..round
            })
        }),
{
}

/// The manager collects reports as soon as as many have come as workers have joined,
/// or once it has waited for more than half a second and more than a quarter of the
/// time limit and 10 milliseconds. Until that it yields, with a heartbeat where the
/// last is more than 100 milliseconds ago.
pub proof fn law_wait_for_reports_ends(
    round: LocalRound,
    joined: u64,
    reported: u64,
    now: u64,
    later: u64,
)
    requires
        round.phase is PollJoined,
        now >= round.closed,
        later >= round.last_beat,
    ensures
        ({
            let counted = round.next(joined);
            let seen = counted.next(reported);
            let collect = ManagerAction::Local(Access::Load(LocalCell::ReportBatchId(0)));
            let scan = ReportScan::initial(round.batch_id, round.consumed);
            let waited = now - round.closed;
            let quarter = (round.plan.time_limit_us as int / 4) * 1000 + 10_000_000;
            &&& round.asks_for(ManagerAction::Local(Access::Load(LocalCell::ActiveWorkers)))
            &&& counted.asks_for(ManagerAction::Local(Access::Load(LocalCell::ReportedCount)))
            &&& if reported >= joined {
                seen.asks_for(collect) && seen.phase == RoundPhase::Collect(scan)
            } else {
                &&& seen.asks_for(ManagerAction::Monotonic)
                &&& if waited > 500_000_000 && waited > quarter {
                    &&& seen.next(now).asks_for(collect)
                    &&& seen.next(now).phase == RoundPhase::Collect(scan)
                } else {
                    let checked = seen.next(now).next(later);
                    &&& seen.next(now).asks_for(ManagerAction::Monotonic)
                    &&& if later - round.last_beat > 100_000_000 {
                        checked == (LocalRound {
                            phase: RoundPhase::ReportBeat(Heartbeat::ReadForTurn),
                            ..round
                        })
                    } else {
                        &&& checked.asks_for(ManagerAction::Yield)
                        &&& checked.next(now) == round
                    }
                }
            }
        }),
{
}

/// What a round has collected is its result, once workers are shown that the batch
/// is over.
pub proof fn law_collected_totals_are_result(
    round: LocalRound,
    duration_us: u64,
    used: u64,
    reply: u64,
)
    requires
        round.phase == RoundPhase::SetIdle(duration_us, used),
    ensures
        round.asks_for(ManagerAction::Local(Access::Store(LocalCell::State, 0))),
        round.next(reply).asks() == Step::<ManagerAction, (u64, u64)>::Done((duration_us, used)),
{
}

/// A batch that is over is emptied first; then the manager shows that it is alive
/// and asks for reports.
pub proof fn law_emptied_batch_is_closed(round: LocalRound, reply: u64)
    requires
        round.phase is EmptyBucket,
    ensures
        round.asks_for(ManagerAction::Local(Access::Store(LocalCell::TokensRemaining, 0))),
        round.next(reply) == (LocalRound {
            phase: RoundPhase::CloseBeat(Heartbeat::ReadForTurn),
            ..round
        }),
{
}

/// While reports are collected the manager does what the collection asks for. What
/// that comes to is shown as over, and is the result.
pub proof fn law_collection_is_carried_out(round: LocalRound, scan: ReportScan, reply: u64)
    requires
        round.phase == RoundPhase::Collect(scan),
        scan.asks() is Do,
    ensures
        round.asks() == scan.asks(),
        scan.next(reply).asks() is Do ==> round.next(reply) == (LocalRound {
            phase: RoundPhase::Collect(scan.next(reply)),
            ..round
        }),
        scan.next(reply).asks() matches Step::Done(totals) ==> round.next(reply) == (LocalRound {
            phase: RoundPhase::SetIdle(totals.0, totals.1),
            ..round
        }),
        scan.next(reply).asks() is Overflow ==> round.next(reply).asks() is Overflow,
{
}

} // verus!
