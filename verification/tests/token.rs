use limiter::access::{Access, Step};
use limiter::shmem::{LocalCell, LocalContainerShmem, STATE_IDLE, STATE_MEASURING, STATE_RUNNING};
use limiter::worker::client::SchedulerClient;
use limiter::worker::token::{InnerLock, TokenPhase, TokenWait};
use limiter::worker::{RuntimeCall, WorkerAction};

fn worker_lock() -> InnerLock {
    SchedulerClient::create_inner_lock(11, 21, 22, 23)
}

/// Runs a wait until it launches or would sleep; returns the calls into the
/// runtime that it made.
fn drive_wait(
    wait: &mut TokenWait,
    lock: &mut InnerLock,
    shmem: &mut LocalContainerShmem,
    now: u64,
    capturing: u64,
    elapsed_us: u64,
) -> (Vec<RuntimeCall>, Option<WorkerAction>) {
    let mut calls: Vec<RuntimeCall> = Vec::new();
    loop {
        match wait.step(lock) {
            Step::Do(WorkerAction::Memory(access)) => {
                let reply = shmem.perform(access);
                wait.advance(lock, reply);
            }
            Step::Do(WorkerAction::WallClock) => wait.advance(lock, now),
            Step::Do(WorkerAction::Runtime(call)) => {
                calls.push(call);
                let reply = match call {
                    RuntimeCall::CaptureStatus(_) => capturing,
                    RuntimeCall::ElapsedUs(_, _) => elapsed_us,
                    _ => 0,
                };
                wait.advance(lock, reply);
            }
            Step::Do(other) => return (calls, Some(other)),
            Step::Done(()) => return (calls, None),
            Step::Overflow => panic!("a wait does not count"),
        }
    }
}

#[test]
fn the_first_token_of_a_batch_announces_the_worker() {
    let client = SchedulerClient::with_slots(4, 0, 0);
    let mut lock = worker_lock();
    let mut shmem = LocalContainerShmem::zeroed();
    shmem.state = STATE_RUNNING;
    shmem.batch_id = 6;
    shmem.tokens_remaining = 3;
    let mut wait = client.wait_for_token(&mut lock, 77);
    let (calls, rest) = drive_wait(&mut wait, &mut lock, &mut shmem, 1_000, 0, 0);
    assert_eq!(rest, None);
    assert_eq!(calls, vec![RuntimeCall::EventRecord(21, 11)]);
    assert_eq!(shmem.tokens_remaining, 2);
    assert_eq!(shmem.active_workers, 1);
    assert_eq!(shmem.reports[4].cpu_start_us, 1_000);
    assert!(lock.batch_active);
    assert_eq!((lock.current_batch_id, lock.start_time_us, lock.last_user_stream), (6, 1_000, 77));
}

#[test]
fn later_tokens_of_a_batch_only_leave_the_bucket() {
    let client = SchedulerClient::with_slots(4, 0, 0);
    let mut lock = worker_lock();
    lock.batch_active = true;
    lock.current_batch_id = 6;
    lock.start_time_us = 9;
    let mut shmem = LocalContainerShmem::zeroed();
    shmem.state = STATE_RUNNING;
    shmem.batch_id = 6;
    shmem.tokens_remaining = 2;
    let mut wait = client.wait_for_token(&mut lock, 0);
    let (calls, rest) = drive_wait(&mut wait, &mut lock, &mut shmem, 1_000, 0, 0);
    assert_eq!((calls.len(), rest), (0, None));
    assert_eq!((shmem.tokens_remaining, shmem.active_workers), (1, 0));
    assert_eq!(lock.start_time_us, 9);
}

#[test]
fn a_new_batch_is_joined_afresh() {
    let client = SchedulerClient::with_slots(0, 0, 0);
    let mut lock = worker_lock();
    lock.batch_active = true;
    lock.current_batch_id = 5;
    let mut shmem = LocalContainerShmem::zeroed();
    shmem.state = STATE_RUNNING;
    shmem.batch_id = 6;
    shmem.tokens_remaining = 1;
    let mut wait = client.wait_for_token(&mut lock, 0);
    drive_wait(&mut wait, &mut lock, &mut shmem, 50, 0, 0);
    assert_eq!(shmem.active_workers, 1);
    assert_eq!(lock.current_batch_id, 6);
}

#[test]
fn an_empty_bucket_makes_a_worker_yield() {
    let client = SchedulerClient::with_slots(0, 0, 0);
    let mut lock = worker_lock();
    let mut shmem = LocalContainerShmem::zeroed();
    shmem.state = STATE_RUNNING;
    let mut wait = client.wait_for_token(&mut lock, 0);
    let (_, rest) = drive_wait(&mut wait, &mut lock, &mut shmem, 50, 0, 0);
    assert_eq!(rest, Some(WorkerAction::Yield));
    assert_eq!(shmem.tokens_remaining, 0);
}

#[test]
fn a_token_that_somebody_else_took_is_given_back() {
    let client = SchedulerClient::with_slots(0, 0, 0);
    let mut lock = worker_lock();
    let mut wait = client.wait_for_token(&mut lock, 0);
    wait.advance(&mut lock, STATE_RUNNING as u64);
    wait.advance(&mut lock, 1);
    wait.advance(&mut lock, 1);
    let take = Access::FetchSub(LocalCell::TokensRemaining, 1);
    assert_eq!(wait.step(&lock), Step::Do(WorkerAction::Memory(take)));
    wait.advance(&mut lock, 0);
    let give = Access::FetchAdd(LocalCell::TokensRemaining, 1);
    assert_eq!(wait.step(&lock), Step::Do(WorkerAction::Memory(give)));
    wait.advance(&mut lock, u64::MAX);
    assert_eq!(wait.phase, TokenPhase::ReadState);
}

#[test]
fn workers_at_one_bucket_conserve_tokens() {
    let client = SchedulerClient::with_slots(0, 0, 0);
    let mut shmem = LocalContainerShmem::zeroed();
    shmem.state = STATE_RUNNING;
    shmem.tokens_remaining = 5;
    let mut locks = [worker_lock(), worker_lock(), worker_lock()];
    let mut launched = 0;
    for turn in 0..6 {
        let lock = &mut locks[turn % 3];
        let mut wait = client.wait_for_token(lock, 0);
        let (_, rest) = drive_wait(&mut wait, lock, &mut shmem, 50, 0, 0);
        if rest.is_none() {
            launched += 1;
        }
    }
    assert_eq!(launched, 5);
    assert_eq!(shmem.tokens_remaining, 0);
    assert_eq!(shmem.active_workers, 3);
}

#[test]
fn a_worker_sleeps_while_no_batch_runs() {
    let client = SchedulerClient::with_slots(0, 0, 0);
    let mut lock = worker_lock();
    let mut shmem = LocalContainerShmem::zeroed();
    let mut wait = client.wait_for_token(&mut lock, 0);
    let (_, rest) = drive_wait(&mut wait, &mut lock, &mut shmem, 50, 0, 0);
    assert_eq!(rest, Some(WorkerAction::Park(STATE_IDLE as u64)));
}

#[test]
fn a_worker_that_took_no_part_sleeps_while_a_batch_is_measured() {
    let client = SchedulerClient::with_slots(0, 0, 0);
    let mut lock = worker_lock();
    let mut shmem = LocalContainerShmem::zeroed();
    shmem.state = STATE_MEASURING;
    let mut wait = client.wait_for_token(&mut lock, 0);
    let (_, rest) = drive_wait(&mut wait, &mut lock, &mut shmem, 50, 0, 0);
    assert_eq!(rest, Some(WorkerAction::Park(STATE_MEASURING as u64)));
    assert_eq!(shmem.reported_count, 0);
}

#[test]
fn a_batch_is_timed_with_events() {
    let client = SchedulerClient::with_slots(2, 0, 0);
    let mut lock = worker_lock();
    lock.batch_active = true;
    lock.current_batch_id = 8;
    lock.start_time_us = 100;
    let mut shmem = LocalContainerShmem::zeroed();
    shmem.state = STATE_MEASURING;
    shmem.batch_id = 8;
    let mut wait = client.wait_for_token(&mut lock, 77);
    let (calls, rest) = drive_wait(&mut wait, &mut lock, &mut shmem, 900, 0, 345);
    assert_eq!(rest, Some(WorkerAction::Park(STATE_MEASURING as u64)));
    assert_eq!(
        calls,
        vec![
            RuntimeCall::CaptureStatus(77),
            RuntimeCall::EventRecord(23, 77),
            RuntimeCall::StreamWaitEvent(11, 23),
            RuntimeCall::EventRecord(22, 11),
            RuntimeCall::StreamSynchronize(11),
            RuntimeCall::ElapsedUs(21, 22),
        ],
    );
    assert_eq!(shmem.reports[2].duration_us, 345);
    assert_eq!(shmem.reports[2].batch_id, 8);
    assert_eq!(shmem.reported_count, 1);
    assert!(!lock.batch_active);
    assert_eq!(lock.start_time_us, 0);
}

#[test]
fn a_capturing_stream_is_timed_with_the_wall_clock() {
    let client = SchedulerClient::with_slots(2, 0, 0);
    let mut lock = worker_lock();
    lock.batch_active = true;
    lock.current_batch_id = 8;
    lock.start_time_us = 100;
    let mut shmem = LocalContainerShmem::zeroed();
    shmem.state = STATE_MEASURING;
    shmem.batch_id = 8;
    let mut wait = client.wait_for_token(&mut lock, 77);
    let (calls, _) = drive_wait(&mut wait, &mut lock, &mut shmem, 900, 1, 345);
    assert_eq!(calls, vec![RuntimeCall::CaptureStatus(77), RuntimeCall::DeviceSynchronize]);
    assert_eq!(shmem.reports[2].duration_us, 800);
}

#[test]
fn a_worker_without_a_stream_is_timed_with_the_wall_clock() {
    let client = SchedulerClient::with_slots(2, 0, 0);
    let mut lock = worker_lock();
    lock.batch_active = true;
    lock.start_time_us = 1_000;
    let mut shmem = LocalContainerShmem::zeroed();
    shmem.state = STATE_MEASURING;
    let mut wait = client.wait_for_token(&mut lock, 0);
    let (calls, _) = drive_wait(&mut wait, &mut lock, &mut shmem, 900, 0, 345);
    assert_eq!(calls, vec![RuntimeCall::DeviceSynchronize]);
    assert_eq!(shmem.reports[2].duration_us, 0);
    assert_eq!(shmem.reported_count, 1);
}

#[test]
fn a_stub_launches_at_once() {
    let (client, mut shmem) = SchedulerClient::stub();
    let mut lock = SchedulerClient::create_inner_lock(0, 0, 0, 0);
    let mut wait = client.wait_for_token(&mut lock, 5);
    let (calls, rest) = drive_wait(&mut wait, &mut lock, &mut shmem, 0, 0, 0);
    assert_eq!((calls.len(), rest), (0, None));
    assert_eq!(shmem.tokens_remaining, 0);
}

#[test]
fn an_overdrawn_bucket_shows_tokens_until_they_are_given_back() {
    let client = SchedulerClient::with_slots(0, 0, 0);
    let mut shmem = LocalContainerShmem::zeroed();
    shmem.state = STATE_RUNNING;
    shmem.tokens_remaining = 1;
    let mut locks = [worker_lock(), worker_lock(), worker_lock()];
    let mut waits: Vec<TokenWait> = Vec::new();
    for lock in &mut locks {
        lock.batch_active = true;
        waits.push(client.wait_for_token(lock, 0));
    }
    let mut turn = |waits: &mut Vec<TokenWait>, shmem: &mut LocalContainerShmem, i: usize| {
        if let Step::Do(WorkerAction::Memory(access)) = waits[i].step(&locks[i]) {
            let reply = shmem.perform(access);
            waits[i].advance(&mut locks[i], reply);
        }
    };
    for _ in 0..3 {
        turn(&mut waits, &mut shmem, 0);
        turn(&mut waits, &mut shmem, 1);
    }
    turn(&mut waits, &mut shmem, 0);
    assert_eq!((waits[0].phase, shmem.tokens_remaining), (TokenPhase::Launch, 0));
    turn(&mut waits, &mut shmem, 1);
    assert_eq!((waits[1].phase, shmem.tokens_remaining), (TokenPhase::GiveBack, u64::MAX));
    for _ in 0..4 {
        turn(&mut waits, &mut shmem, 2);
    }
    assert_eq!(waits[2].phase, TokenPhase::Launch);
    turn(&mut waits, &mut shmem, 1);
    assert_eq!(shmem.tokens_remaining, u64::MAX);
}
