use limiter::access::{Access, Step};
use limiter::manager::plan::{clamp_tokens, RunStage, SharePlan};
use limiter::manager::round::LocalRound;
use limiter::manager::slot::ContainerManager;
use limiter::manager::ManagerAction;
use limiter::shmem::{GlobalCell, GlobalRegistry, LocalCell, LocalContainerShmem};

fn plan_of(tokens: u64, expected_run_us: u64, time_limit_us: u64) -> SharePlan {
    SharePlan {
        tokens,
        time_limit_us,
        base_tokens: tokens,
        expected_run_us,
        rest_wait_us: 0,
        anchor_speed_us: 1,
    }
}

/// What a run of a batch left behind.
struct Outcome {
    result: Option<(u64, u64)>,
    states: Vec<u64>,
    buckets: Vec<u64>,
    beats: usize,
    now: u64,
}

/// Runs a batch; `work` is called whenever the manager sleeps or yields.
fn drive_round(
    round: &mut LocalRound,
    shmem: &mut LocalContainerShmem,
    mut work: impl FnMut(&mut LocalContainerShmem, u64),
) -> Outcome {
    let mut registry = GlobalRegistry::zeroed();
    let mut out =
        Outcome { result: None, states: vec![], buckets: vec![], beats: 0, now: 1_000_000 };
    loop {
        match round.step() {
            Step::Do(ManagerAction::Local(access)) => {
                if let Access::Store(LocalCell::State, word) = access {
                    out.states.push(word);
                }
                if let Access::Store(LocalCell::TokensRemaining, word) = access {
                    out.buckets.push(word);
                }
                let reply = shmem.perform(access);
                round.advance(reply);
            }
            Step::Do(ManagerAction::Global(access)) => {
                if let Access::Store(GlobalCell::SlotHeartbeat(_), _) = access {
                    out.beats += 1;
                }
                let reply = registry.perform(access);
                round.advance(reply);
            }
            Step::Do(ManagerAction::Monotonic) => round.advance(out.now),
            Step::Do(ManagerAction::WallClock) => round.advance(out.now / 1_000),
            Step::Do(ManagerAction::Sleep(ns)) => {
                out.now += ns;
                work(shmem, out.now);
                round.advance(0);
            }
            Step::Do(ManagerAction::Yield) => {
                out.now += 1_000_000;
                work(shmem, out.now);
                round.advance(0);
            }
            Step::Do(_) => round.advance(0),
            Step::Done(result) => {
                out.result = Some(result);
                return out;
            }
            Step::Overflow => return out,
        }
    }
}

#[test]
fn a_batch_whose_tokens_are_used_is_measured() {
    let manager = ContainerManager::with_slot(1, 9, false);
    let mut shmem = LocalContainerShmem::zeroed();
    shmem.batch_id = 4;
    let mut round = manager.run_local_round(&plan_of(10, 1_000, 60_000));
    let out = drive_round(&mut round, &mut shmem, |shmem, _| {
        if shmem.state == 1 {
            shmem.active_workers = 1;
            shmem.tokens_remaining = 0;
        } else if shmem.reported_count == 0 {
            shmem.reports[2].batch_id = 5;
            shmem.reports[2].cpu_start_us = 100;
            shmem.reports[2].duration_us = 40;
            shmem.reported_count = 1;
        }
    });
    assert_eq!(out.result, Some((40, 10)));
    assert_eq!(out.states, vec![1, 2, 0]);
    assert_eq!(out.buckets, vec![10, 0]);
    assert_eq!(shmem.batch_id, 5);
    assert_eq!(shmem.state, 0);
}

#[test]
fn a_batch_that_nobody_joins_is_given_up() {
    let manager = ContainerManager::with_slot(1, 9, false);
    let mut shmem = LocalContainerShmem::zeroed();
    let mut round = manager.run_local_round(&plan_of(10, 1_000_000, 2_000_000));
    let out = drive_round(&mut round, &mut shmem, |_, _| {});
    assert_eq!(out.result, Some((0, 0)));
    assert_eq!(out.now, 1_000_000 + 26 * 200_000);
    assert_eq!(out.buckets, vec![10, 0]);
}

#[test]
fn a_fixed_share_holds_its_turn_for_its_budget() {
    let manager = ContainerManager::with_slot(1, 9, true);
    let mut shmem = LocalContainerShmem::zeroed();
    let mut round = manager.run_local_round(&plan_of(10, 20_000, 80_000));
    let out = drive_round(&mut round, &mut shmem, |_, _| {});
    assert_eq!(out.result, Some((0, 0)));
    assert_eq!(out.now, 1_000_000 + 20_000_000);
    assert_eq!(out.beats, 101);
}

#[test]
fn a_batch_that_is_worked_on_runs_until_its_time_limit() {
    let manager = ContainerManager::with_slot(1, 9, false);
    let mut shmem = LocalContainerShmem::zeroed();
    let mut round = manager.run_local_round(&plan_of(10, 1_000, 30_000));
    let out = drive_round(&mut round, &mut shmem, |shmem, _| {
        if shmem.state == 1 {
            shmem.active_workers = 1;
            shmem.tokens_remaining = 7;
        } else if shmem.reported_count == 0 {
            shmem.reports[0].batch_id = 1;
            shmem.reports[0].cpu_start_us = 5;
            shmem.reports[0].duration_us = 90;
            shmem.reported_count = 1;
        }
    });
    assert_eq!(out.result, Some((90, 3)));
    assert!(out.now > 1_000_000 + 30_000_000);
}

#[test]
fn the_wait_for_reports_ends_with_its_grace() {
    let manager = ContainerManager::with_slot(1, 9, false);
    let mut shmem = LocalContainerShmem::zeroed();
    let mut round = manager.run_local_round(&plan_of(10, 1_000, 30_000));
    let mut closed = 0;
    let out = drive_round(&mut round, &mut shmem, |shmem, now| {
        if shmem.state == 1 {
            shmem.active_workers = 2;
            shmem.tokens_remaining = 0;
            closed = now;
        }
    });
    assert_eq!(out.result, Some((0, 0)));
    assert_eq!(out.now, closed + 501_000_000);
}

#[test]
fn a_long_batch_grants_a_longer_grace() {
    let manager = ContainerManager::with_slot(1, 9, false);
    let mut shmem = LocalContainerShmem::zeroed();
    let mut round = manager.run_local_round(&plan_of(10, 1_000, 4_000_000));
    let mut closed = 0;
    let out = drive_round(&mut round, &mut shmem, |shmem, now| {
        if shmem.state == 1 {
            shmem.active_workers = 1;
            shmem.tokens_remaining = 0;
            closed = now;
        }
    });
    assert_eq!(out.now, closed + 1_011_000_000);
    assert!(out.beats >= 10);
}

#[test]
fn batches_cannot_be_counted_forever() {
    let manager = ContainerManager::with_slot(1, 9, false);
    let mut shmem = LocalContainerShmem::zeroed();
    shmem.batch_id = u64::MAX;
    let mut round = manager.run_local_round(&plan_of(10, 1_000, 30_000));
    let out = drive_round(&mut round, &mut shmem, |_, _| {});
    assert_eq!(out.result, None);
    assert_eq!(out.states, vec![]);
}

#[test]
fn reports_are_put_together() {
    let mut shmem = LocalContainerShmem::zeroed();
    for (i, batch, start, duration) in
        [(0, 3, 100, 50), (1, 3, 80, 20), (2, 3, 10, 0), (3, 2, 1, 999), (31, 3, 120, 60)]
    {
        shmem.reports[i].batch_id = batch;
        shmem.reports[i].cpu_start_us = start;
        shmem.reports[i].duration_us = duration;
    }
    assert_eq!(ContainerManager::aggregate_local_times(&shmem, 3, 17), (100, 17));
    assert_eq!(ContainerManager::aggregate_local_times(&shmem, 2, 17), (999, 17));
    assert_eq!(ContainerManager::aggregate_local_times(&shmem, 9, 17), (0, 0));
}

#[test]
fn the_slowest_active_container_is_the_anchor() {
    let mut registry = GlobalRegistry::zeroed();
    assert_eq!(ContainerManager::anchor_speed(&registry), 1);
    registry.slots[0].avg_kernel_time = 900;
    registry.slots[5].avg_kernel_time = 700;
    registry.slots[5].is_active = 1;
    registry.slots[63].avg_kernel_time = 300;
    registry.slots[63].is_active = 1;
    assert_eq!(ContainerManager::anchor_speed(&registry), 700);
}

#[test]
fn tokens_are_kept_in_range() {
    assert_eq!(clamp_tokens(0), 1);
    assert_eq!(clamp_tokens(42), 42);
    assert_eq!(clamp_tokens(3_000_000), 2_000_000);
}

#[test]
fn a_plan_follows_from_its_tokens() {
    let manager = ContainerManager::with_slot(0, 1, false);
    assert_eq!(
        manager.calculate_fair_share(800, 2, 200, 77),
        SharePlan {
            tokens: 200,
            time_limit_us: 200_000,
            base_tokens: 2,
            expected_run_us: 100_000,
            rest_wait_us: 0,
            anchor_speed_us: 800,
        },
    );
}

#[test]
fn a_fixed_share_plans_a_rest() {
    let mut manager = ContainerManager::with_slot(0, 1, true);
    manager.current_avg_us = 0;
    let plan = manager.calculate_fair_share(1, 0, 0, 77);
    assert_eq!(plan.rest_wait_us, 77);
    assert_eq!((plan.tokens, plan.base_tokens), (1, 1));
    assert_eq!((plan.expected_run_us, plan.time_limit_us), (1, 50_001));
    assert_eq!(manager.my_time(), 1);
}

#[test]
fn a_plan_may_be_too_long_to_count() {
    let mut manager = ContainerManager::with_slot(0, 1, false);
    assert!(manager.share_fits(2_000_000));
    manager.current_avg_us = u64::MAX / 2;
    assert!(!manager.share_fits(2));
    manager.current_avg_us = u64::MAX;
    assert!(!manager.share_fits(1));
}

#[test]
fn averages_swing_by_a_factor_of_four() {
    let mut manager = ContainerManager::with_slot(0, 1, false);
    manager.current_avg_us = 400;
    assert_eq!(manager.update_local_stats(1_000, 2), Some(500));
    assert_eq!(manager.update_local_stats(10, 2), Some(100));
    assert_eq!(manager.update_local_stats(1_000_000, 2), Some(1_600));
    assert_eq!(manager.update_local_stats(1_000, 0), None);
    manager.current_avg_us = 0;
    assert_eq!(manager.update_local_stats(1_000, 2), Some(1));
}

#[test]
fn a_new_average_is_published() {
    let mut manager = ContainerManager::with_slot(6, 1, false);
    let updates = manager.record_average(321, 5_000);
    assert_eq!(manager.current_avg_us, 321);
    assert_eq!(
        updates,
        vec![
            Access::Store(GlobalCell::SlotAvg(6), 321),
            Access::Store(GlobalCell::SlotHeartbeat(6), 5_000),
        ],
    );
}

#[test]
fn a_batch_without_work_skips_the_statistics() {
    assert!(ContainerManager::has_workers(5, 1));
    assert!(!ContainerManager::has_workers(0, 1));
    assert!(!ContainerManager::has_workers(5, 0));
    let mut stage = ContainerManager::with_slot(0, 1, false).run();
    let mut stages: Vec<RunStage> = vec![stage];
    for has_workers in [false, false, false, false, false, true, true, true, true] {
        stage.advance(has_workers);
        stages.push(stage);
    }
    assert_eq!(
        stages,
        vec![
            RunStage::JoinQueue,
            RunStage::WaitForTurn,
            RunStage::Heartbeat,
            RunStage::Rest,
            RunStage::Plan,
            RunStage::Round,
            RunStage::Stats,
            RunStage::ScheduleRest,
            RunStage::PassBaton,
            RunStage::WaitForTurn,
        ],
    );
    let mut idle = RunStage::Round;
    idle.advance(false);
    assert_eq!(idle, RunStage::ScheduleRest);
}
