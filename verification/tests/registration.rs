use limiter::access::{Access, Step};
use limiter::liveness::ProcessTable;
use limiter::manager::slot::{ContainerManager, GlobalRegistration};
use limiter::manager::ManagerAction;
use limiter::shmem::{
    GlobalCell, GlobalRegistry, LocalCell, LocalContainerShmem, MAX_MANAGERS, MAX_PROCESSES,
    MAX_WORKERS,
};
use limiter::worker::client::SchedulerClient;
use limiter::worker::registration::{NoSlot, WorkerRegistration};
use limiter::worker::WorkerAction;

fn everyone(pids: &[i32]) -> ProcessTable {
    ProcessTable { live: pids.to_vec() }
}

#[test]
fn a_worker_gets_the_first_free_report_slot() {
    let mut shmem = LocalContainerShmem::zeroed();
    shmem.reports[0].pid = 5;
    shmem.reports[0].occupied = 1;
    let slot = SchedulerClient::register_worker_slot(&mut shmem, &everyone(&[5]), 9);
    assert_eq!(slot, Some(1));
    assert_eq!((shmem.reports[1].pid, shmem.reports[1].occupied), (9, 1));
}

#[test]
fn a_worker_gets_its_own_report_slot_back() {
    let mut shmem = LocalContainerShmem::zeroed();
    shmem.reports[7].pid = 9;
    shmem.reports[7].batch_id = 3;
    shmem.reports[7].cpu_start_us = 4;
    shmem.reports[7].duration_us = 5;
    let slot = SchedulerClient::register_worker_slot(&mut shmem, &everyone(&[9]), 9);
    assert_eq!(slot, Some(7));
    let report = shmem.reports[7];
    assert_eq!((report.batch_id, report.cpu_start_us, report.duration_us), (0, 0, 0));
}

#[test]
fn registering_twice_gives_the_same_report_slot() {
    let mut shmem = LocalContainerShmem::zeroed();
    let first = SchedulerClient::register_worker_slot(&mut shmem, &everyone(&[]), 9);
    let again = SchedulerClient::register_worker_slot(&mut shmem, &everyone(&[9]), 9);
    assert_eq!(first, Some(0));
    assert_eq!(again, first);
}

#[test]
fn a_worker_takes_the_report_slot_of_an_ended_process() {
    let mut shmem = LocalContainerShmem::zeroed();
    shmem.reports[0].pid = 5;
    shmem.reports[0].occupied = 1;
    shmem.reports[0].duration_us = 80;
    let slot = SchedulerClient::register_worker_slot(&mut shmem, &everyone(&[]), 9);
    assert_eq!(slot, Some(0));
    assert_eq!(shmem.reports[0].pid, 9);
    assert_eq!(shmem.reports[0].duration_us, 0);
}

#[test]
fn an_occupied_slot_without_an_owner_is_skipped() {
    let mut shmem = LocalContainerShmem::zeroed();
    shmem.reports[0].occupied = 1;
    let slot = SchedulerClient::register_worker_slot(&mut shmem, &everyone(&[]), 9);
    assert_eq!(slot, Some(1));
}

#[test]
fn a_full_set_of_report_slots_gives_none() {
    let mut shmem = LocalContainerShmem::zeroed();
    let mut pids: Vec<i32> = Vec::new();
    for i in 0..MAX_WORKERS {
        shmem.reports[i].pid = 100 + i as i32;
        shmem.reports[i].occupied = 1;
        pids.push(100 + i as i32);
    }
    assert_eq!(SchedulerClient::register_worker_slot(&mut shmem, &everyone(&pids), 9), None);
}

#[test]
fn a_worker_that_loses_a_slot_goes_on_searching() {
    let mut registration = WorkerRegistration::start(9);
    for _ in 0..MAX_WORKERS {
        registration.advance(0);
    }
    assert_eq!(
        registration.step(),
        Step::Do(WorkerAction::Memory(Access::Load(LocalCell::ReportPid(0)))),
    );
    registration.advance(0);
    assert_eq!(
        registration.step(),
        Step::Do(WorkerAction::Memory(Access::CompareExchange(
            LocalCell::ReportOccupied(0),
            0,
            1,
        ))),
    );
    registration.advance(1);
    assert_eq!(
        registration.step(),
        Step::Do(WorkerAction::Memory(Access::Load(LocalCell::ReportPid(1)))),
    );
}

#[test]
fn a_process_gets_a_slot_that_holds_nothing() {
    let mut shmem = LocalContainerShmem::zeroed();
    shmem.procs[0].is_active = 1;
    shmem.procs[1].hbm_used = [9; 8];
    assert_eq!(SchedulerClient::register_proc_slot(&mut shmem, 12), Some(1));
    assert_eq!(shmem.procs[1].pid, 12);
    assert_eq!(shmem.procs[1].is_active, 1);
    assert_eq!(shmem.procs[1].hbm_used, [0; 8]);
}

#[test]
fn two_processes_get_different_slots() {
    let mut shmem = LocalContainerShmem::zeroed();
    assert_eq!(SchedulerClient::register_proc_slot(&mut shmem, 12), Some(0));
    assert_eq!(SchedulerClient::register_proc_slot(&mut shmem, 12), Some(1));
}

#[test]
fn a_full_set_of_process_slots_gives_none() {
    let mut shmem = LocalContainerShmem::zeroed();
    for i in 0..MAX_PROCESSES {
        shmem.procs[i].is_active = 1;
    }
    assert_eq!(SchedulerClient::register_proc_slot(&mut shmem, 12), None);
}

#[test]
fn a_manager_registers_with_a_default_average() {
    let mut registry = GlobalRegistry::zeroed();
    registry.slots[0].is_active = 1;
    assert_eq!(ContainerManager::register_global_slot(&mut registry, 40, 1_000), Some(1));
    let slot = registry.slots[1];
    assert_eq!((slot.pid, slot.is_active), (40, 1));
    assert_eq!((slot.avg_kernel_time, slot.last_heartbeat), (500, 1_000));
}

#[test]
fn two_managers_get_different_slots() {
    let mut registry = GlobalRegistry::zeroed();
    assert_eq!(ContainerManager::register_global_slot(&mut registry, 40, 1), Some(0));
    assert_eq!(ContainerManager::register_global_slot(&mut registry, 41, 1), Some(1));
}

#[test]
fn a_full_registry_gives_none() {
    let mut registry = GlobalRegistry::zeroed();
    for i in 0..MAX_MANAGERS {
        registry.slots[i].is_active = 1;
    }
    assert_eq!(ContainerManager::register_global_slot(&mut registry, 40, 1), None);
}

#[test]
fn a_manager_that_loses_a_slot_tries_the_next() {
    let mut registration = GlobalRegistration::start(40);
    registration.advance(1);
    assert_eq!(
        registration.step(),
        Step::Do(ManagerAction::Global(Access::CompareExchange(GlobalCell::SlotActive(1), 0, 1))),
    );
}

#[test]
fn a_released_slot_is_free_again() {
    let mut registry = GlobalRegistry::zeroed();
    ContainerManager::register_global_slot(&mut registry, 40, 1);
    let manager = ContainerManager::with_slot(0, 40, false);
    for action in manager.release() {
        if let ManagerAction::Global(access) = action {
            registry.perform(access);
        }
    }
    assert_eq!(registry.slots[0].is_active, 0);
    assert_eq!(registry.signal_counter, 1);
    assert_eq!(ContainerManager::register_global_slot(&mut registry, 41, 1), Some(0));
}

#[test]
fn a_new_manager_publishes_its_limits() {
    let manager = ContainerManager::with_slot(3, 40, true);
    assert_eq!(
        manager.publish(25, 4096),
        vec![
            ManagerAction::Global(Access::Store(GlobalCell::SlotPriority(3), 25)),
            ManagerAction::Local(Access::Store(LocalCell::MemoryLimit, 4_294_967_296)),
            ManagerAction::Local(Access::Store(LocalCell::MemoryUsed, 0)),
            ManagerAction::Local(Access::Store(LocalCell::ComputePriority, 25)),
        ],
    );
    assert_eq!(manager.current_avg_us, 500);
    assert_eq!(manager.next_run_not_before, None);
}

#[test]
fn a_client_gets_both_slots() {
    let mut shmem = LocalContainerShmem::zeroed();
    shmem.procs[0].is_active = 1;
    let client = SchedulerClient::new(&mut shmem, &everyone(&[]), 9, 3).unwrap();
    assert_eq!((client.my_slot_idx, client.my_proc_idx, client.device_id), (0, 1, 3));
    assert!(client.connected);
    assert!(client.hbm_handle_map.is_empty());
    assert_eq!((shmem.reports[0].pid, shmem.procs[1].pid), (9, 9));
}

#[test]
fn a_client_needs_both_slots() {
    let mut shmem = LocalContainerShmem::zeroed();
    for i in 0..MAX_PROCESSES {
        shmem.procs[i].is_active = 1;
    }
    let err = SchedulerClient::new(&mut shmem, &everyone(&[]), 9, 3).unwrap_err();
    assert_eq!(err, NoSlot::Process);
    assert_eq!(shmem.reports[0].pid, 9);
    for i in 0..MAX_WORKERS {
        shmem.reports[i].pid = 100;
        shmem.reports[i].occupied = 1;
    }
    let err = SchedulerClient::new(&mut shmem, &everyone(&[100]), 9, 3).unwrap_err();
    assert_eq!(err, NoSlot::Report);
}

#[test]
fn a_manager_publishes_where_it_registers() {
    let mut registry = GlobalRegistry::zeroed();
    let mut shmem = LocalContainerShmem::zeroed();
    shmem.memory_used = 12;
    let manager =
        ContainerManager::new(&mut registry, &mut shmem, 40, 25, 2, true, 1_000).unwrap();
    assert_eq!(manager, ContainerManager::with_slot(0, 40, true));
    assert_eq!(registry.slots[0].priority, 25);
    assert_eq!(registry.slots[0].last_heartbeat, 1_000);
    assert_eq!((shmem.memory_limit, shmem.memory_used, shmem.compute_priority), (2_097_152, 0, 25));
    for i in 0..MAX_MANAGERS {
        registry.slots[i].is_active = 1;
    }
    let none = ContainerManager::new(&mut registry, &mut shmem, 41, 1, 4, false, 2_000);
    assert_eq!(none, None);
    assert_eq!(shmem.memory_limit, 2_097_152);
}
