use limiter::access::{Access, Step};
use limiter::externed_api::{RT_ERROR_MEMORY_ALLOCATION, RT_ERROR_NONE};
use limiter::liveness::ProcessTable;
use limiter::shmem::{LocalCell, LocalContainerShmem};
use limiter::worker::client::SchedulerClient;
use limiter::worker::quota::{QuotaCheck, QuotaPhase};
use limiter::worker::usage::{UsagePhase, UsageScan};
use limiter::worker::WorkerAction;

const MB: u64 = 1024 * 1024;

fn limited(limit: u64) -> LocalContainerShmem {
    let mut shmem = LocalContainerShmem::zeroed();
    shmem.memory_limit = limit;
    shmem
}

fn holding(shmem: &mut LocalContainerShmem, slot: usize, pid: i32, device: usize, bytes: u64) {
    shmem.procs[slot].pid = pid;
    shmem.procs[slot].is_active = 1;
    shmem.procs[slot].hbm_used[device] = bytes;
}

fn alive(pids: &[i32]) -> ProcessTable {
    ProcessTable { live: pids.to_vec() }
}

#[test]
fn without_a_limit_every_request_is_granted() {
    let client = SchedulerClient::with_slots(0, 0, 0);
    let mut shmem = limited(0);
    shmem.memory_used = u64::MAX;
    assert_eq!(client.check_memory_quota(&mut shmem, &alive(&[]), u64::MAX), RT_ERROR_NONE);
    assert_eq!(shmem.memory_used, u64::MAX);
}

#[test]
fn a_request_up_to_the_limit_is_granted() {
    let client = SchedulerClient::with_slots(0, 0, 0);
    let mut shmem = limited(1000);
    shmem.memory_used = 400;
    assert_eq!(client.check_memory_quota(&mut shmem, &alive(&[]), 600), RT_ERROR_NONE);
    assert_eq!(shmem.memory_used, 1000);
}

#[test]
fn a_request_beyond_the_limit_is_refused() {
    let client = SchedulerClient::with_slots(0, 0, 0);
    let mut shmem = limited(1000);
    shmem.memory_used = 400;
    let code = client.check_memory_quota(&mut shmem, &alive(&[]), 601);
    assert_eq!(code, RT_ERROR_MEMORY_ALLOCATION);
    assert_eq!(code, 207001);
    assert_eq!(shmem.memory_used, 400);
}

#[test]
fn memory_of_ended_processes_is_reclaimed_before_a_request_is_weighed() {
    let client = SchedulerClient::with_slots(0, 0, 2);
    let mut shmem = limited(1000);
    holding(&mut shmem, 4, 71, 2, 900);
    shmem.memory_used = 900;
    assert_eq!(client.check_memory_quota(&mut shmem, &alive(&[]), 950), RT_ERROR_NONE);
    assert_eq!(shmem.memory_used, 950);
    assert_eq!(shmem.procs[4].pid, 0);
    assert_eq!(shmem.procs[4].is_active, 0);
    assert_eq!(shmem.procs[4].hbm_used[2], 0);
}

#[test]
fn usage_is_what_live_processes_hold() {
    let client = SchedulerClient::with_slots(0, 0, 1);
    let mut shmem = limited(10_000);
    holding(&mut shmem, 0, 10, 1, 100);
    holding(&mut shmem, 1, 11, 1, 200);
    holding(&mut shmem, 2, 12, 1, 400);
    holding(&mut shmem, 3, 0, 1, 800);
    shmem.procs[0].hbm_used[3] = 5;
    shmem.memory_used = 700;
    assert_eq!(client.recalculate_usage(&mut shmem, &alive(&[10, 12])), 500);
    assert_eq!(shmem.memory_used, 500);
    assert_eq!(shmem.procs[1].pid, 0);
    assert_eq!(shmem.procs[3].hbm_used[1], 800);
    assert_eq!(shmem.procs[0].hbm_used[3], 5);
}

#[test]
fn a_second_recalculation_changes_nothing() {
    let client = SchedulerClient::with_slots(0, 0, 0);
    let mut shmem = limited(10_000);
    holding(&mut shmem, 0, 10, 0, 100);
    holding(&mut shmem, 1, 11, 0, 200);
    shmem.memory_used = 350;
    let first = client.recalculate_usage_for_device(&mut shmem, &alive(&[10]), 0);
    let settled = shmem.memory_used;
    let second = client.recalculate_usage_for_device(&mut shmem, &alive(&[10]), 0);
    assert_eq!((first, second), (100, 100));
    assert_eq!((settled, shmem.memory_used), (150, 150));
}

#[test]
fn the_counter_is_only_corrected_upward() {
    let client = SchedulerClient::with_slots(0, 0, 0);
    let mut shmem = limited(10_000);
    holding(&mut shmem, 0, 10, 0, 100);
    shmem.memory_used = 40;
    assert_eq!(client.recalculate_usage(&mut shmem, &alive(&[10])), 100);
    assert_eq!(shmem.memory_used, 100);
    shmem.memory_used = 160;
    assert_eq!(client.recalculate_usage(&mut shmem, &alive(&[10])), 100);
    assert_eq!(shmem.memory_used, 160);
}

#[test]
fn an_allocation_is_accounted_for_and_given_back() {
    let mut client = SchedulerClient::with_slots(3, 5, 2);
    let mut shmem = limited(1000);
    assert_eq!(client.check_memory_quota(&mut shmem, &alive(&[]), 300), RT_ERROR_NONE);
    let update = client.post_alloc_hbm(0xABC, 300, RT_ERROR_NONE);
    assert_eq!(update, Access::FetchAdd(LocalCell::ProcHbm(5, 2), 300));
    shmem.perform(update);
    assert_eq!(client.hbm_handle_map.get(&0xABC), Some(&300));
    assert_eq!(shmem.procs[5].hbm_used[2], 300);
    for update in client.post_free_hbm(0xABC, RT_ERROR_NONE) {
        shmem.perform(update);
    }
    assert_eq!(shmem.memory_used, 0);
    assert_eq!(shmem.procs[5].hbm_used[2], 0);
    assert!(client.hbm_handle_map.is_empty());
}

#[test]
fn a_failed_allocation_gives_its_reservation_back() {
    let mut client = SchedulerClient::with_slots(0, 0, 0);
    let mut shmem = limited(1000);
    shmem.memory_used = 100;
    assert_eq!(client.check_memory_quota(&mut shmem, &alive(&[]), 300), RT_ERROR_NONE);
    let update = client.post_alloc_hbm(0, 300, 507899);
    assert_eq!(update, Access::FetchSub(LocalCell::MemoryUsed, 300));
    shmem.perform(update);
    assert_eq!(shmem.memory_used, 100);
    assert!(client.hbm_handle_map.is_empty());
}

#[test]
fn a_handle_is_given_back_once() {
    let mut client = SchedulerClient::with_slots(0, 0, 0);
    client.post_alloc_hbm(7, 64, RT_ERROR_NONE);
    assert_eq!(client.post_free_hbm(7, RT_ERROR_NONE).len(), 2);
    assert!(client.post_free_hbm(7, RT_ERROR_NONE).is_empty());
}

#[test]
fn a_failed_release_keeps_the_handle() {
    let mut client = SchedulerClient::with_slots(0, 0, 0);
    client.post_alloc_hbm(7, 64, RT_ERROR_NONE);
    assert!(client.post_free_hbm(7, 1).is_empty());
    assert_eq!(client.hbm_handle_map.get(&7), Some(&64));
}

#[test]
fn an_empty_allocation_is_forgotten_without_an_update() {
    let mut client = SchedulerClient::with_slots(0, 0, 0);
    client.post_alloc_hbm(7, 0, RT_ERROR_NONE);
    assert!(client.post_free_hbm(7, RT_ERROR_NONE).is_empty());
    assert!(client.hbm_handle_map.is_empty());
}

#[test]
fn free_memory_is_reported_without_the_overhead() {
    let client = SchedulerClient::with_slots(0, 0, 0);
    assert_eq!(client.get_hbm_info(1024 * MB, 512 * MB), (384 * MB, 1024 * MB));
    assert_eq!(client.get_hbm_info(1024 * MB, 896 * MB), (0, 1024 * MB));
    assert_eq!(client.get_hbm_info(1024 * MB, 895 * MB), (MB, 1024 * MB));
    assert_eq!(client.get_hbm_info(100, 200), (0, 100));
}

#[test]
fn a_limit_of_zero_is_no_limit() {
    let client = SchedulerClient::with_slots(0, 0, 0);
    assert!(!client.is_hbm_limited(0));
    assert!(client.is_hbm_limited(1));
    assert_eq!(client.get_hbm_quota(77), 77);
    assert_eq!(client.get_compute_share(63), 63);
    assert_eq!(client.current_device(), 0);
}

#[test]
fn a_stub_limits_nothing() {
    let (client, mut shmem) = SchedulerClient::stub();
    assert!(!client.connected);
    assert!(!client.is_hbm_limited(shmem.memory_limit));
    assert_eq!(client.check_memory_quota(&mut shmem, &alive(&[]), u64::MAX), RT_ERROR_NONE);
    assert_eq!(shmem.memory_used, 0);
}

fn give_up(client: &SchedulerClient, shmem: &mut LocalContainerShmem) {
    for update in client.release() {
        shmem.perform(update);
    }
}

#[test]
fn a_client_that_ends_gives_its_slot_up() {
    let client = SchedulerClient::with_slots(0, 9, 1);
    let mut shmem = limited(1000);
    holding(&mut shmem, 9, 44, 1, 100);
    shmem.memory_used = 100;
    assert_eq!(
        client.release(),
        vec![
            Access::Store(LocalCell::ProcPid(9), 0),
            Access::Store(LocalCell::ProcActive(9), 0),
        ],
    );
    give_up(&client, &mut shmem);
    assert_eq!((shmem.procs[9].pid, shmem.procs[9].is_active), (0, 0));
    assert_eq!((shmem.procs[9].hbm_used[1], shmem.memory_used), (100, 100));
}

#[test]
fn what_an_ended_client_left_is_reclaimed_by_a_recalculation() {
    let a = SchedulerClient::with_slots(0, 9, 1);
    let b = SchedulerClient::with_slots(1, 3, 1);
    let mut shmem = limited(1000);
    holding(&mut shmem, 9, 44, 1, 100);
    holding(&mut shmem, 8, 45, 1, 30);
    shmem.procs[9].hbm_used[2] = 5;
    shmem.memory_used = 130;
    give_up(&a, &mut shmem);
    assert_eq!(b.recalculate_usage(&mut shmem, &alive(&[44, 45])), 30);
    assert_eq!((shmem.procs[9].hbm_used[1], shmem.memory_used), (0, 30));
    assert_eq!((shmem.procs[9].pid, shmem.procs[9].is_active), (0, 0));
    assert_eq!((shmem.procs[8].pid, shmem.procs[8].hbm_used[1]), (45, 30));
    assert_eq!(shmem.procs[9].hbm_used[2], 5);
}

#[test]
fn the_counter_is_lowered_by_at_most_what_it_holds() {
    let a = SchedulerClient::with_slots(0, 9, 1);
    let b = SchedulerClient::with_slots(1, 3, 1);
    let mut shmem = limited(1000);
    holding(&mut shmem, 9, 44, 1, 100);
    shmem.memory_used = 0;
    give_up(&a, &mut shmem);
    assert_eq!(b.check_memory_quota(&mut shmem, &alive(&[]), 1), RT_ERROR_NONE);
    assert_eq!((shmem.procs[9].hbm_used[1], shmem.memory_used), (0, 1));
}

#[test]
fn leftovers_beyond_counting_empty_the_counter() {
    let client = SchedulerClient::with_slots(0, 0, 1);
    let mut shmem = limited(1000);
    shmem.procs[4].hbm_used[1] = u64::MAX;
    shmem.procs[5].hbm_used[1] = 7;
    shmem.memory_used = 50;
    assert_eq!(client.recalculate_usage(&mut shmem, &alive(&[])), 0);
    assert_eq!(shmem.memory_used, 0);
    assert_eq!((shmem.procs[4].hbm_used[1], shmem.procs[5].hbm_used[1]), (0, 0));
}

#[test]
fn a_slot_that_is_being_taken_keeps_what_it_counts() {
    let client = SchedulerClient::with_slots(0, 0, 1);
    let mut shmem = limited(1000);
    holding(&mut shmem, 4, 0, 1, 20);
    shmem.memory_used = 20;
    assert_eq!(client.recalculate_usage(&mut shmem, &alive(&[])), 0);
    assert_eq!((shmem.procs[4].hbm_used[1], shmem.memory_used), (20, 20));
}

#[test]
fn leftovers_are_taken_from_a_slot_that_is_held() {
    let mut scan = UsageScan::start(1);
    scan.advance(0);
    let look = Access::Load(LocalCell::ProcHbm(0, 1));
    assert_eq!(scan.step(), Step::Do(WorkerAction::Memory(look)));
    scan.advance(70);
    let claim = Access::CompareExchange(LocalCell::ProcActive(0), 0, 1);
    assert_eq!(scan.step(), Step::Do(WorkerAction::Memory(claim)));
    scan.advance(0);
    let take = Access::Swap(LocalCell::ProcHbm(0, 1), 0);
    assert_eq!(scan.step(), Step::Do(WorkerAction::Memory(take)));
    scan.advance(70);
    let free = Access::Store(LocalCell::ProcActive(0), 0);
    assert_eq!(scan.step(), Step::Do(WorkerAction::Memory(free)));
    scan.advance(1);
    assert_eq!(scan.left, 70);
    let next = Access::Load(LocalCell::ProcPid(1));
    assert_eq!(scan.step(), Step::Do(WorkerAction::Memory(next)));
}

#[test]
fn the_counter_is_lowered_again_when_it_has_moved() {
    let mut scan = UsageScan::start(1);
    scan.left = 70;
    scan.phase = UsagePhase::Lower(100);
    let lower = Access::CompareExchange(LocalCell::MemoryUsed, 100, 30);
    assert_eq!(scan.step(), Step::Do(WorkerAction::Memory(lower)));
    scan.advance(60);
    let lower = Access::CompareExchange(LocalCell::MemoryUsed, 60, 0);
    assert_eq!(scan.step(), Step::Do(WorkerAction::Memory(lower)));
    scan.advance(60);
    assert_eq!(scan.phase, UsagePhase::ReadUsed);
}

#[test]
fn a_reservation_starts_over_when_the_counter_has_moved() {
    let mut check = QuotaCheck { device: 0, size: 10, phase: QuotaPhase::Reserve(100, 50) };
    let ask = Access::CompareExchange(LocalCell::MemoryUsed, 50, 60);
    assert_eq!(check.step(), Step::Do(WorkerAction::Memory(ask)));
    check.advance(70);
    assert_eq!(check.phase, QuotaPhase::Reserve(100, 70));
    check.advance(95);
    assert_eq!(check.phase, QuotaPhase::Refused);
    assert_eq!(check.step(), Step::Done(RT_ERROR_MEMORY_ALLOCATION));
}

#[test]
fn a_request_that_cannot_be_added_up_overflows() {
    let mut check = QuotaCheck { device: 0, size: 2, phase: QuotaPhase::ReadUsed(100) };
    check.advance(u64::MAX - 1);
    assert_eq!(check.phase, QuotaPhase::Overflowed);
    assert_eq!(check.step(), Step::Overflow);
}

#[test]
fn a_slot_that_somebody_else_cleans_up_is_left_alone() {
    let mut scan = UsageScan::start(0);
    let read = Access::Load(LocalCell::ProcPid(0));
    assert_eq!(scan.step(), Step::Do(WorkerAction::Memory(read)));
    scan.advance(31);
    assert_eq!(scan.step(), Step::Do(WorkerAction::CheckAlive(31)));
    scan.advance(0);
    let claim = Access::CompareExchange(LocalCell::ProcPid(0), 31, 0);
    assert_eq!(scan.step(), Step::Do(WorkerAction::Memory(claim)));
    scan.advance(0);
    let next = Access::Load(LocalCell::ProcPid(1));
    assert_eq!(scan.step(), Step::Do(WorkerAction::Memory(next)));
    assert_eq!(scan.cleaned, 0);
}

#[test]
fn usage_that_cannot_be_added_up_overflows() {
    let mut scan = UsageScan::start(0);
    for bytes in [u64::MAX, 1] {
        scan.advance(5);
        scan.advance(1);
        scan.advance(bytes);
    }
    assert_eq!(scan.step(), Step::Overflow);
}
