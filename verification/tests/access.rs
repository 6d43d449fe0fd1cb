use limiter::access::{Access, Width};
use limiter::shmem::{
    decode_pid, encode_pid, GlobalCell, GlobalRegistry, LocalCell, LocalContainerShmem,
};

#[test]
fn a_word_wraps_at_its_width() {
    assert_eq!(Width::W32.wrap(0x1_0000_0005), 5);
    assert_eq!(Width::W64.wrap(0x1_0000_0005), 0x1_0000_0005);
    assert_eq!(Width::W64.wrap(u64::MAX as u128 + 1), 0);
}

#[test]
fn loads_leave_a_word_alone() {
    assert_eq!(Access::Load(LocalCell::State).result(Width::W32, 7), 7);
}

#[test]
fn stores_and_swaps_replace_a_word() {
    assert_eq!(Access::Store(LocalCell::State, 3).result(Width::W32, 7), 3);
    assert_eq!(Access::Swap(LocalCell::MemoryUsed, 0).result(Width::W64, 7), 0);
}

#[test]
fn taking_from_an_empty_word_wraps() {
    let take = Access::FetchSub(LocalCell::TokensRemaining, 1);
    assert_eq!(take.result(Width::W64, 0), u64::MAX);
    let give = Access::FetchAdd(LocalCell::TokensRemaining, 1);
    assert_eq!(give.result(Width::W64, u64::MAX), 0);
    assert_eq!(Access::FetchSub(LocalCell::State, 2).result(Width::W32, 1), 0xFFFF_FFFF);
}

#[test]
fn adding_then_subtracting_restores_a_word() {
    let word: u64 = u64::MAX - 3;
    let sum = Access::FetchAdd(LocalCell::MemoryUsed, 10).result(Width::W64, word);
    assert_eq!(sum, 6);
    assert_eq!(Access::FetchSub(LocalCell::MemoryUsed, 10).result(Width::W64, sum), word);
}

#[test]
fn one_of_two_exchanges_wins() {
    let mut shmem = LocalContainerShmem::zeroed();
    let first = shmem.perform(Access::CompareExchange(LocalCell::ProcActive(3), 0, 1));
    let second = shmem.perform(Access::CompareExchange(LocalCell::ProcActive(3), 0, 1));
    assert_eq!((first, second), (0, 1));
    assert_eq!(shmem.procs[3].is_active, 1);
}

#[test]
fn a_failed_exchange_reports_the_word_it_found() {
    let mut registry = GlobalRegistry::zeroed();
    registry.lock_owner = 9;
    let reply = registry.perform(Access::CompareExchange(GlobalCell::LockOwner, 4, 5));
    assert_eq!(reply, 9);
    assert_eq!(registry.lock_owner, 9);
}

#[test]
fn process_ids_survive_being_stored() {
    for pid in [0, 1, 4242, i32::MAX, -1, i32::MIN] {
        assert_eq!(decode_pid(encode_pid(pid)), pid);
    }
    assert_eq!(encode_pid(-1), 0xFFFF_FFFF);
    assert_eq!(decode_pid(0x8000_0000), i32::MIN);
}

#[test]
fn cells_name_the_words_of_a_segment() {
    let mut shmem = LocalContainerShmem::zeroed();
    shmem.write(LocalCell::ProcHbm(2, 5), 77);
    shmem.write(LocalCell::ProcPid(2), 12);
    shmem.write(LocalCell::ReportDuration(31), 900);
    assert_eq!(shmem.procs[2].hbm_used[5], 77);
    assert_eq!(shmem.procs[2].pid, 12);
    assert_eq!(shmem.reports[31].duration_us, 900);
    assert_eq!(shmem.read(LocalCell::ProcHbm(2, 5)), 77);
    assert_eq!(shmem.read(LocalCell::ProcHbm(2, 4)), 0);
}

#[test]
fn cells_name_the_words_of_a_registry() {
    let mut registry = GlobalRegistry::zeroed();
    registry.write(GlobalCell::Queue(63), 8);
    registry.write(GlobalCell::SlotAvg(1), 500);
    registry.write(GlobalCell::SlotPid(1), encode_pid(31));
    assert_eq!(registry.queue[63], 8);
    assert_eq!(registry.slots[1].avg_kernel_time, 500);
    assert_eq!(registry.slots[1].pid, 31);
    assert_eq!(registry.read(GlobalCell::SlotAvg(1)), 500);
}
