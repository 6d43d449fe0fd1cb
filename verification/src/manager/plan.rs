//! What a manager does with its turn.
//!
//! The products of a priority or a scale and a count are fractions. They are
//! computed elsewhere, and come in rounded to whole numbers.

use vstd::prelude::*;

use crate::access::{Access, Cell, Step};
use crate::manager::slot::ContainerManager;
use crate::manager::ManagerAction;
use crate::shmem::{GlobalCell, GlobalRegistry, MAX_MANAGERS};

verus! {

pub const MIN_TOKENS: u64 = 1;

pub const MAX_TOKENS: u64 = 2_000_000;

/// Microseconds that every batch may take beyond its budget.
pub const TIMEOUT_MARGIN_US: u64 = 50_000;

/// What a batch is allowed.
#[derive(Debug, Clone, Copy, PartialEq, Eq, Structural)]
pub struct SharePlan {
    /// How many kernels may be launched.
    pub tokens: u64,
    pub time_limit_us: u64,
    /// Tokens before they are scaled.
    pub base_tokens: u64,
    pub expected_run_us: u64,
    /// How long the container rests after the batch.
    pub rest_wait_us: u64,
    /// The average of the slowest active container.
    pub anchor_speed_us: u64,
}

/// A number brought into a range.
pub open spec fn clamped(value: int, low: int, high: int) -> int {
    if value < low {
        low
    } else if value > high {
        high
    } else {
        value
    }
}

/// The product of two numbers, or the largest 64-bit number where it is larger.
pub open spec fn saturated_product(a: u64, b: u64) -> int {
    if a * b > u64::MAX {
        u64::MAX as int
    } else {
        a * b
    }
}

/// How long a batch may take that is expected to run for a time.
pub open spec fn time_limit(expected: int) -> int {
    expected + expected / 2 + TIMEOUT_MARGIN_US
}

/// Brings a number of tokens into its range.
pub fn clamp_tokens(raw: u64) -> (tokens: u64)
    ensures
        tokens == clamped(raw as int, MIN_TOKENS as int, MAX_TOKENS as int),
{
    if raw < MIN_TOKENS {
        MIN_TOKENS
    } else if raw > MAX_TOKENS {
        MAX_TOKENS
    } else {
        raw
    }
}

fn product(a: u64, b: u64) -> (p: u64)
    ensures
        p == saturated_product(a, b),
{
    match a.checked_mul(b) {
        Some(p) => p,
        None => u64::MAX,
    }
}

impl ContainerManager {
    /// The manager's average, at least 1.
    pub open spec fn speed(&self) -> u64 {
        if self.current_avg_us > 1 {
            self.current_avg_us
        } else {
            1
        }
    }

    /// How long a batch is expected to run that is handed a number of tokens.
    pub open spec fn expected_run(&self, raw_tokens: u64) -> int {
        saturated_product(
            clamped(raw_tokens as int, MIN_TOKENS as int, MAX_TOKENS as int) as u64,
            self.speed(),
        )
    }

    /// The plan of a batch, given the average of the slowest active container, the
    /// tokens that the priority yields, those after scaling, and the rest that a
    /// fixed share asks for.
    pub open spec fn planned(
        &self,
        anchor_speed_us: u64,
        raw_base_tokens: u64,
        raw_tokens: u64,
        raw_rest_us: u64,
    ) -> SharePlan {
        SharePlan {
            tokens: clamped(raw_tokens as int, MIN_TOKENS as int, MAX_TOKENS as int) as u64,
            time_limit_us: time_limit(self.expected_run(raw_tokens)) as u64,
            base_tokens: clamped(
                raw_base_tokens as int,
                MIN_TOKENS as int,
                MAX_TOKENS as int,
            ) as u64,
            expected_run_us: self.expected_run(raw_tokens) as u64,
            rest_wait_us: if self.fixed_share_ratio {
                raw_rest_us
            } else {
                0
            },
            anchor_speed_us,
        }
    }

    /// The manager's average as plans use it: at least 1.
    pub fn my_time(&self) -> (time: u64)
        ensures
            time == self.speed(),
    {
        if self.current_avg_us > 1 {
            self.current_avg_us
        } else {
            1
        }
    }

    /// Whether the time limit of a batch fits in 64 bits.
    pub fn share_fits(&self, raw_tokens: u64) -> (fits: bool)
        ensures
            fits == (time_limit(self.expected_run(raw_tokens)) <= u64::MAX),
    {
        let expected: u64 = product(clamp_tokens(raw_tokens), self.my_time());
        expected as u128 + (expected / 2) as u128 + TIMEOUT_MARGIN_US as u128 <= u64::MAX as u128
    }

    /// Plans a batch, given the average of the slowest active container, the
    /// tokens that the priority yields, those after scaling, and the rest that a
    /// fixed share asks for.
    pub fn calculate_fair_share(
        &self,
        anchor_speed_us: u64,
        raw_base_tokens: u64,
        raw_tokens: u64,
        raw_rest_us: u64,
    ) -> (plan: SharePlan)
        requires
            time_limit(self.expected_run(raw_tokens)) <= u64::MAX,
        ensures
            plan.tokens == clamped(raw_tokens as int, MIN_TOKENS as int, MAX_TOKENS as int),
            plan.base_tokens == clamped(
                raw_base_tokens as int,
                MIN_TOKENS as int,
                MAX_TOKENS as int,
            ),
            plan.expected_run_us == self.expected_run(raw_tokens),
            plan.time_limit_us == time_limit(self.expected_run(raw_tokens)),
            plan.rest_wait_us == if self.fixed_share_ratio {
                raw_rest_us
            } else {
                0
            },
            plan.anchor_speed_us == anchor_speed_us,
            plan == self.planned(anchor_speed_us, raw_base_tokens, raw_tokens, raw_rest_us),
            plan.expected_run_us == plan.tokens * (if self.current_avg_us > 1 {
                self.current_avg_us as int
            } else {
                1
            }),
    {
        let base_tokens: u64 = clamp_tokens(raw_base_tokens);
        let tokens: u64 = clamp_tokens(raw_tokens);
        let my_time: u64 = self.my_time();
        let expected_run_us: u64 = product(tokens, my_time);
        proof {
            assert(tokens * my_time >= 1) by (nonlinear_arith)
                requires
                    tokens >= 1,
                    my_time >= 1,
            ;
        }
        let time_limit_us: u64 = expected_run_us + (expected_run_us / 2) + TIMEOUT_MARGIN_US;
        let rest_wait_us: u64 = if self.fixed_share_ratio { raw_rest_us } else { 0 };
        SharePlan {
            tokens,
            time_limit_us,
            base_tokens,
            expected_run_us: if expected_run_us > 1 { expected_run_us } else { 1 },
            rest_wait_us,
            anchor_speed_us,
        }
    }

    /// The average of a batch, kept within a factor of four of the manager's.
    pub open spec fn limited_average(&self, duration_us: u64, tokens: u64) -> int {
        let lower = if self.current_avg_us / 4 > 1 {
            (self.current_avg_us / 4) as int
        } else {
            1
        };
        let upper = if saturated_product(self.current_avg_us, 4) > 1 {
            saturated_product(self.current_avg_us, 4)
        } else {
            1
        };
        clamped((duration_us / tokens) as int, lower, upper)
    }

    /// Whether a batch tells anything about how long kernels take.
    pub fn has_workers(duration_us: u64, tokens: u64) -> (has: bool)
        ensures
            has == (tokens > 0 && duration_us > 0),
    {
        tokens > 0 && duration_us > 0
    }

    /// What a batch contributes to the manager's average, if it used any tokens.
    pub fn update_local_stats(&self, duration_us: u64, tokens: u64) -> (average: Option<u64>)
        ensures
            match average {
                Some(avg) => tokens > 0 && avg == self.limited_average(duration_us, tokens),
                None => tokens == 0,
            },
    {
        if tokens == 0 {
            return None;
        }
        let new_avg: u64 = duration_us / tokens;
        let quarter: u64 = self.current_avg_us / 4;
        let lower: u64 = if quarter > 1 { quarter } else { 1 };
        let fourfold: u64 = product(self.current_avg_us, 4);
        let upper: u64 = if fourfold > 1 { fourfold } else { 1 };
        if new_avg < lower {
            Some(lower)
        } else if new_avg > upper {
            Some(upper)
        } else {
            Some(new_avg)
        }
    }

    /// Takes the new average on, and returns the updates that publish it at a
    /// time.
    pub fn record_average(&mut self, average_us: u64, now: u64) -> (updates: Vec<
        Access<GlobalCell>,
    >)
        ensures
            *final(self) == (ContainerManager { current_avg_us: average_us, ..*old(self) }),
            updates@ == seq![
                Access::Store(GlobalCell::SlotAvg(old(self).my_global_idx), average_us),
                Access::Store(GlobalCell::SlotHeartbeat(old(self).my_global_idx), now),
            ],
            *final(self) == old(self).with_average(average_us),
            updates@ == old(self).average_updates(average_us, now),
    {
        self.current_avg_us = average_us;
        let mut updates: Vec<Access<GlobalCell>> = Vec::new();
        updates.push(Access::Store(GlobalCell::SlotAvg(self.my_global_idx), average_us));
        updates.push(Access::Store(GlobalCell::SlotHeartbeat(self.my_global_idx), now));
        updates
    }
}

/// Where an [`AnchorScan`] stands.
#[derive(Debug, Clone, Copy, PartialEq, Eq, Structural)]
pub enum AnchorPhase {
    ReadActive,
    ReadAvg,
    Finished,
}

/// Finds the average of the slowest active container, at least 1.
#[derive(Debug, Clone, Copy, PartialEq, Eq, Structural)]
pub struct AnchorScan {
    pub index: usize,
    pub anchor: u64,
    pub phase: AnchorPhase,
}

impl AnchorScan {
    /// A scan that has not looked at any slot.
    pub open spec fn initial() -> AnchorScan {
        AnchorScan { index: 0, anchor: 1, phase: AnchorPhase::ReadActive }
    }

    /// What the scan asks for.
    pub open spec fn asks(self) -> Step<ManagerAction, u64> {
        match self.phase {
            AnchorPhase::ReadActive => Step::Do(
                ManagerAction::Global(Access::Load(GlobalCell::SlotActive(self.index))),
            ),
            AnchorPhase::ReadAvg => Step::Do(
                ManagerAction::Global(Access::Load(GlobalCell::SlotAvg(self.index))),
            ),
            AnchorPhase::Finished => Step::Done(self.anchor),
        }
    }

    /// The scan behind the current slot.
    pub open spec fn past_slot(self) -> AnchorScan {
        if self.index + 1 < MAX_MANAGERS {
            AnchorScan { index: (self.index + 1) as usize, phase: AnchorPhase::ReadActive, ..self }
        } else {
            AnchorScan { phase: AnchorPhase::Finished, ..self }
        }
    }

    /// The scan once it has the reply to what it asked.
    pub open spec fn next(self, reply: u64) -> AnchorScan {
        match self.phase {
            AnchorPhase::ReadActive => if reply == 1 {
                AnchorScan { phase: AnchorPhase::ReadAvg, ..self }
            } else {
                self.past_slot()
            },
            AnchorPhase::ReadAvg => if reply > self.anchor {
                AnchorScan { anchor: reply, ..self }.past_slot()
            } else {
                self.past_slot()
            },
            AnchorPhase::Finished => self,
        }
    }

    /// Starts a scan.
    pub fn start() -> (scan: AnchorScan)
        ensures
            scan == AnchorScan::initial(),
    {
        AnchorScan { index: 0, anchor: 1, phase: AnchorPhase::ReadActive }
    }

    /// Tells what to do next.
    pub fn step(&self) -> (step: Step<ManagerAction, u64>)
        ensures
            step == self.asks(),
    {
        match self.phase {
            AnchorPhase::ReadActive => Step::Do(
                ManagerAction::Global(Access::Load(GlobalCell::SlotActive(self.index))),
            ),
            AnchorPhase::ReadAvg => Step::Do(
                ManagerAction::Global(Access::Load(GlobalCell::SlotAvg(self.index))),
            ),
            AnchorPhase::Finished => Step::Done(self.anchor),
        }
    }

    fn leave_slot(&mut self)
        ensures
            *final(self) == old(self).past_slot(),
    {
        if self.index < MAX_MANAGERS - 1 {
            self.index = self.index + 1;
            self.phase = AnchorPhase::ReadActive;
        } else {
            self.phase = AnchorPhase::Finished;
        }
    }

    /// Takes the reply to what was asked.
    pub fn advance(&mut self, reply: u64)
        ensures
            *final(self) == old(self).next(reply),
    {
        match self.phase {
            AnchorPhase::ReadActive => {
                if reply == 1 {
                    self.phase = AnchorPhase::ReadAvg;
                } else {
                    self.leave_slot();
                }
            },
            AnchorPhase::ReadAvg => {
                if reply > self.anchor {
                    self.anchor = reply;
                }
                self.leave_slot();
            },
            AnchorPhase::Finished => {},
        }
    }
}

/// Whether a slot of the registry belongs to an active container.
pub open spec fn slot_active(registry: Map<GlobalCell, u64>, slot: int) -> bool {
    registry[GlobalCell::SlotActive(slot as usize)] == 1
}

/// The average that a slot of the registry shows.
pub open spec fn slot_average(registry: Map<GlobalCell, u64>, slot: int) -> u64 {
    registry[GlobalCell::SlotAvg(slot as usize)]
}

/// Whether a number is the largest average of the active containers among the
/// first slots, or 1 where that is larger.
pub open spec fn is_anchor(registry: Map<GlobalCell, u64>, slots: int, anchor: u64) -> bool {
    &&& anchor >= 1
    &&& forall|i: int|
        0 <= i < slots && slot_active(registry, i) ==> #[trigger] slot_average(registry, i)
            <= anchor
    &&& anchor == 1 || exists|i: int|
        0 <= i < slots && slot_active(registry, i) && #[trigger] slot_average(registry, i)
            == anchor
}

impl ContainerManager {
    /// Finds the average of the slowest active container, in a registry that
    /// nobody changes meanwhile.
    pub fn anchor_speed(registry: &GlobalRegistry) -> (anchor: u64)
        ensures
            is_anchor(registry@, MAX_MANAGERS as int, anchor),
    {
        let mut scan = AnchorScan::start();
        loop
            invariant
                scan.index < MAX_MANAGERS,
                is_anchor(
                    registry@,
                    if scan.phase is Finished {
                        MAX_MANAGERS as int
                    } else {
                        scan.index as int
                    },
                    scan.anchor,
                ),
                scan.phase is ReadAvg ==> slot_active(registry@, scan.index as int),
            decreases
                match scan.phase {
                    AnchorPhase::ReadActive => 2 + (MAX_MANAGERS - scan.index) * 2,
                    AnchorPhase::ReadAvg => 1 + (MAX_MANAGERS - scan.index) * 2,
                    AnchorPhase::Finished => 0int,
                },
        {
            let ghost seen = scan;
            match scan.step() {
                Step::Do(ManagerAction::Global(Access::Load(cell))) => {
                    assert(cell.valid());
                    let reply: u64 = registry.read(cell);
                    scan.advance(reply);
                    proof {
                        let i = seen.index as int;
                        if seen.phase is ReadActive {
                            assert(reply == 1 <==> slot_active(registry@, i));
                        } else {
                            assert(reply == slot_average(registry@, i));
                            if scan.anchor == seen.anchor && seen.anchor != 1 {
                                let w = choose|j: int|
                                    0 <= j < i && slot_active(registry@, j)
                                        && #[trigger] slot_average(registry@, j) == seen.anchor;
                                assert(slot_average(registry@, w) == scan.anchor);
                            }
                        }
                    }
                },
                Step::Done(anchor) => {
                    return anchor;
                },
                _ => {
                    assert(false);
                    return 1;
                },
            }
        }
    }
}

/// A plan hands out the scaled tokens, at least 1 and at most 2,000,000, and
/// expects each of them to take the manager's average, at least 1 microsecond. It
/// allows half as much again, and 50 milliseconds. Only a fixed share rests.
pub proof fn law_plan_follows_average(
    manager: ContainerManager,
    anchor_speed_us: u64,
    raw_base_tokens: u64,
    raw_tokens: u64,
    raw_rest_us: u64,
)
    ensures
        ({
            let plan = manager.planned(anchor_speed_us, raw_base_tokens, raw_tokens, raw_rest_us);
            let average = manager.current_avg_us as int;
            let per_token = if average >= 1 {
                average
            } else {
                1
            };
            let expected = manager.expected_run(raw_tokens);
            &&& 1 <= plan.tokens <= 2_000_000
            &&& 1 <= raw_tokens <= 2_000_000 ==> plan.tokens == raw_tokens
            &&& raw_tokens > 2_000_000 ==> plan.tokens == 2_000_000
            &&& 1 <= plan.base_tokens <= 2_000_000
            &&& 1 <= raw_base_tokens <= 2_000_000 ==> plan.base_tokens == raw_base_tokens
            &&& raw_base_tokens > 2_000_000 ==> plan.base_tokens == 2_000_000
            &&& manager.speed() == per_token
            &&& if plan.tokens * per_token <= 0xFFFF_FFFF_FFFF_FFFF {
                expected == plan.tokens * per_token
            } else {
                expected == 0xFFFF_FFFF_FFFF_FFFF
            }
            &&& plan.expected_run_us == expected
            &&& time_limit(expected) == expected + expected / 2 + 50_000
            &&& time_limit(expected) <= u64::MAX ==> {
                &&& plan.expected_run_us == plan.tokens * per_token
                &&& plan.time_limit_us == plan.expected_run_us + plan.expected_run_us as int / 2
                    + 50_000
            }
            &&& plan.rest_wait_us == if manager.fixed_share_ratio {
                raw_rest_us
            } else {
                0
            }
            &&& plan.anchor_speed_us == anchor_speed_us
        }),
{
    let tokens = clamped(raw_tokens as int, MIN_TOKENS as int, MAX_TOKENS as int);
    let speed = manager.speed() as int;
    assert(tokens * speed >= 1) by (nonlinear_arith)
        requires
            tokens >= 1,
            speed >= 1,
    ;
}

/// A batch contributes its own average, the time it took for each token, as long
/// as that lies between a quarter of the manager's average, at least 1, and four
/// times of it. Below it contributes the lower bound, above it the upper one.
pub proof fn law_batch_contributes_its_average(
    manager: ContainerManager,
    duration_us: u64,
    tokens: u64,
)
    requires
        tokens > 0,
    ensures
        ({
            let average = manager.current_avg_us as int;
            let batch = duration_us as int / tokens as int;
            let low = if average >= 8 {
                average / 4
            } else {
                1
            };
            let high = if average == 0 {
                1
            } else if 4 * average > 0xFFFF_FFFF_FFFF_FFFF {
                0xFFFF_FFFF_FFFF_FFFF
            } else {
                4 * average
            };
            let given = manager.limited_average(duration_us, tokens);
            &&& low <= batch <= high ==> given == batch
            &&& batch < low ==> given == low
            &&& batch > high ==> given == high
        }),
{
}

/// The anchor is the largest average of an active container: no active container
/// has a larger one, and one has it, unless it is 1.
pub proof fn law_anchor_is_slowest(registry: Map<GlobalCell, u64>, anchor: u64)
    requires
        is_anchor(registry, MAX_MANAGERS as int, anchor),
    ensures
        anchor >= 1,
        forall|i: usize|
            i < 64 && registry[GlobalCell::SlotActive(i)] == 1
                ==> #[trigger] registry[GlobalCell::SlotAvg(i)] <= anchor,
        anchor > 1 ==> exists|i: usize|
            i < 64 && registry[GlobalCell::SlotActive(i)] == 1
                && #[trigger] registry[GlobalCell::SlotAvg(i)] == anchor,
{
    assert forall|i: usize| i < 64 && registry[GlobalCell::SlotActive(i)] == 1 implies
        #[trigger] registry[GlobalCell::SlotAvg(i)] <= anchor by {
        assert(slot_active(registry, i as int));
        assert(slot_average(registry, i as int) <= anchor);
    }
    if anchor > 1 {
        let i = choose|i: int|
            0 <= i < MAX_MANAGERS && slot_active(registry, i) && #[trigger] slot_average(
                registry,
                i,
            ) == anchor;
        assert(registry[GlobalCell::SlotAvg(i as usize)] == anchor);
    }
}

/// What a batch contributes to the average is at least 1 and lies within a
/// factor of four of the average before, as far as that is at least 1.
pub proof fn law_average_swings_are_limited(
    manager: ContainerManager,
    duration_us: u64,
    tokens: u64,
)
    requires
        tokens > 0,
    ensures
        manager.limited_average(duration_us, tokens) >= 1,
        manager.limited_average(duration_us, tokens) >= manager.current_avg_us as int / 4,
        manager.current_avg_us > 0 ==> manager.limited_average(duration_us, tokens) <= 4
            * manager.current_avg_us,
{
}

/// The time limit of a batch leaves it at least the margin beyond what it is
/// expected to take, and grows with it.
pub proof fn law_time_limit_leaves_margin(shorter: int, longer: int)
    requires
        0 <= shorter <= longer,
    ensures
        time_limit(shorter) >= shorter + TIMEOUT_MARGIN_US,
        time_limit(shorter) <= time_limit(longer),
{
}

/// The stages of a manager's life.
#[derive(Debug, Clone, Copy, PartialEq, Eq, Structural)]
pub enum RunStage {
    JoinQueue,
    WaitForTurn,
    Heartbeat,
    Rest,
    Plan,
    Round,
    Stats,
    ScheduleRest,
    PassBaton,
}

impl RunStage {
    /// The stage that follows. Statistics are skipped for a batch without work.
    pub open spec fn following(self, has_workers: bool) -> RunStage {
        match self {
            RunStage::JoinQueue => RunStage::WaitForTurn,
            RunStage::WaitForTurn => RunStage::Heartbeat,
            RunStage::Heartbeat => RunStage::Rest,
            RunStage::Rest => RunStage::Plan,
            RunStage::Plan => RunStage::Round,
            RunStage::Round => if has_workers {
                RunStage::Stats
            } else {
                RunStage::ScheduleRest
            },
            RunStage::Stats => RunStage::ScheduleRest,
            RunStage::ScheduleRest => RunStage::PassBaton,
            RunStage::PassBaton => RunStage::WaitForTurn,
        }
    }

    /// Goes on to the next stage.
    pub fn advance(&mut self, has_workers: bool)
        ensures
            *final(self) == old(self).following(has_workers),
    {
        let stage = *self;
        *self = match stage {
            RunStage::JoinQueue => RunStage::WaitForTurn,
            RunStage::WaitForTurn => RunStage::Heartbeat,
            RunStage::Heartbeat => RunStage::Rest,
            RunStage::Rest => RunStage::Plan,
            RunStage::Plan => RunStage::Round,
            RunStage::Round => if has_workers {
                RunStage::Stats
            } else {
                RunStage::ScheduleRest
            },
            RunStage::Stats => RunStage::ScheduleRest,
            RunStage::ScheduleRest => RunStage::PassBaton,
            RunStage::PassBaton => RunStage::WaitForTurn,
        };
    }
}

/// A manager that has got its turn shows that it is alive, rests, plans and runs
/// one batch, and passes the turn on before it waits for it again.
pub proof fn law_every_turn_is_passed_on(has_workers: bool)
    ensures
        ({
            let turn = RunStage::WaitForTurn.following(has_workers);
            let batch = turn.following(has_workers).following(has_workers).following(has_workers);
            let counted = batch.following(has_workers);
            &&& turn == RunStage::Heartbeat
            &&& batch == RunStage::Round
            &&& if has_workers {
                &&& counted == RunStage::Stats
                &&& counted.following(has_workers).following(has_workers) == RunStage::PassBaton
            } else {
                counted.following(has_workers) == RunStage::PassBaton
            }
            &&& RunStage::PassBaton.following(has_workers) == RunStage::WaitForTurn
        }),
{
}

impl ContainerManager {
    /// Starts a manager's life.
    pub fn run(&self) -> (stage: RunStage)
        ensures
            stage == RunStage::JoinQueue,
    {
        RunStage::JoinQueue
    }
}

/// A manager joins the queue once, and then goes through its turns: it waits, shows
/// that it is alive, rests, plans, runs the batch, takes the batch into its average
/// where there was work, notes how long to rest, and passes the turn on.
pub proof fn law_stages_come_in_order(has_workers: bool)
    ensures
        RunStage::JoinQueue.following(has_workers) is WaitForTurn,
        RunStage::WaitForTurn.following(has_workers) is Heartbeat,
        RunStage::Heartbeat.following(has_workers) is Rest,
        RunStage::Rest.following(has_workers) is Plan,
        RunStage::Plan.following(has_workers) is Round,
        RunStage::Round.following(true) is Stats,
        RunStage::Round.following(false) is ScheduleRest,
        RunStage::Stats.following(has_workers) is ScheduleRest,
        RunStage::ScheduleRest.following(has_workers) is PassBaton,
        RunStage::PassBaton.following(has_workers) is WaitForTurn,
{
}

impl ContainerManager {
    /// The manager with another average.
    pub open spec fn with_average(self, average_us: u64) -> ContainerManager {
        ContainerManager { current_avg_us: average_us, ..self }
    }

    /// The updates that publish an average at a time.
    pub open spec fn average_updates(self, average_us: u64, now: u64) -> Seq<Access<GlobalCell>> {
        seq![
            Access::Store(GlobalCell::SlotAvg(self.my_global_idx), average_us),
            Access::Store(GlobalCell::SlotHeartbeat(self.my_global_idx), now),
        ]
    }
}

/// A new average stands in the manager's slot, with the time at which it was
/// published as its heartbeat, and plans go by it. No other word changes.
pub proof fn law_average_is_published(
    manager: ContainerManager,
    registry: Map<GlobalCell, u64>,
    average_us: u64,
    now: u64,
    other: GlobalCell,
)
    requires
        other != GlobalCell::SlotAvg(manager.my_global_idx),
        other != GlobalCell::SlotHeartbeat(manager.my_global_idx),
    ensures
        ({
            let after = crate::access::effects(registry, manager.average_updates(average_us, now));
            let further = manager.with_average(average_us);
            &&& after[GlobalCell::SlotAvg(manager.my_global_idx)] == average_us
            &&& after[GlobalCell::SlotHeartbeat(manager.my_global_idx)] == now
            &&& after[other] == registry[other]
            &&& further.current_avg_us == average_us
            &&& further.my_pid == manager.my_pid
            &&& further.my_global_idx == manager.my_global_idx
            &&& further.fixed_share_ratio == manager.fixed_share_ratio
            &&& further.next_run_not_before == manager.next_run_not_before
            &&& average_us >= 1 ==> further.speed() == average_us
        }),
{
    let updates = manager.average_updates(average_us, now);
    crate::access::law_accesses_follow_one_another(registry, updates[0], updates[1]);
    assert(updates =~= seq![updates[0], updates[1]]);
    crate::access::law_wide_word_accesses(
        registry,
        GlobalCell::SlotAvg(manager.my_global_idx),
        average_us,
        0,
    );
}

impl AnchorScan {
    /// Whether the scan asks for an access to the registry.
    pub open spec fn asks_for(self, access: Access<GlobalCell>) -> bool {
        self.asks() == Step::<ManagerAction, u64>::Do(ManagerAction::Global(access))
    }
}

/// Whatever others do meanwhile, the scan for the slowest container starts from 1 and
/// looks at the 64 slots in order. Where a slot's active word is 1 it reads the
/// average, and goes on with the larger of that and what it has. Behind the last slot
/// that is the result.
pub proof fn law_anchor_grows_with_slots(scan: AnchorScan, active: u64, average: u64)
    requires
        scan.phase is ReadActive,
        scan.index < 64,
    ensures
        AnchorScan::initial().anchor == 1 && AnchorScan::initial().index == 0,
        AnchorScan::initial().asks_for(Access::Load(GlobalCell::SlotActive(0))),
        scan.asks_for(Access::Load(GlobalCell::SlotActive(scan.index))),
        active == 1 ==> scan.next(1).asks_for(Access::Load(GlobalCell::SlotAvg(scan.index))),
        ({
            let after = if active == 1 {
                scan.next(active).next(average)
            } else {
                scan.next(active)
            };
            let anchor = if active == 1 && average > scan.anchor {
                average
            } else {
                scan.anchor
            };
            &&& after.anchor == anchor
            &&& scan.index < 63 ==> after.index == scan.index + 1 && after.phase is ReadActive
            &&& scan.index == 63 ==> after.asks() == Step::<ManagerAction, u64>::Done(anchor)
        }),
{
}

} // verus!
