use limiter::access::{Access, Step};
use limiter::dsmi::{
    dcmi_get_device_memory_info_v3, dcmi_get_memory_info, device_usage,
    dsmi_get_device_utilization_rate, dsmi_get_hbm_info, dsmi_get_memory_info_v2,
    DcmiMemoryInfoStru, DcmiMemoryInfoV3, DeviceUsage, DsmiMemoryInfoV2, HbmInfo,
};
use limiter::externed_api::{RT_ERROR_MEMORY_ALLOCATION, RT_ERROR_NONE};
use limiter::hook::{
    npu_limiter, rtFree, rtMalloc, rtMemGetInfoEx, settle_client, ClientSource, FreeHook,
    HookAction, MallocHook, MemoryReport,
};
use limiter::liveness::ProcessTable;
use limiter::shmem::{LocalCell, LocalContainerShmem};
use limiter::worker::client::SchedulerClient;
use limiter::worker::WorkerAction;

const MIB: u64 = 1024 * 1024;

fn nobody() -> ProcessTable {
    ProcessTable { live: vec![] }
}

fn container(limit: u64, used: u64) -> LocalContainerShmem {
    let mut shmem = LocalContainerShmem::zeroed();
    shmem.memory_limit = limit;
    shmem.memory_used = used;
    shmem
}

#[test]
fn a_client_serves_the_process_it_was_made_for() {
    assert_eq!(npu_limiter(Some(4), 4), ClientSource::Kept);
    assert_eq!(npu_limiter(Some(4), 5), ClientSource::Fresh);
    assert_eq!(npu_limiter(None, 5), ClientSource::Fresh);
}

#[test]
fn a_constructed_client_is_kept() {
    let client = SchedulerClient::with_slots(2, 6, 1);
    let kept = settle_client(77, Some(client));
    assert_eq!((kept.pid, kept.client.my_slot_idx, kept.client.my_proc_idx), (77, 2, 6));
    assert!(kept.client.connected);
    assert!(kept.own_segment.is_none());
}

#[test]
fn a_failed_construction_falls_back_to_a_stub() {
    let mut kept = settle_client(77, None);
    let mut shmem = kept.own_segment.unwrap();
    assert_eq!(kept.pid, 77);
    assert!(!kept.client.connected);
    assert!(!kept.client.is_hbm_limited(shmem.memory_limit));
    for size in [0, 1, u64::MAX] {
        assert_eq!(kept.client.check_memory_quota(&mut shmem, &nobody(), size), 0);
    }
    assert_eq!(rtMalloc(&mut kept.client, &mut shmem, &nobody(), u64::MAX, 0, 4), 0);
    assert_eq!(shmem.memory_used, 0);
    assert_eq!(npu_limiter(Some(kept.pid), 77), ClientSource::Kept);
}

#[test]
fn an_allocation_within_the_limit_reaches_the_runtime() {
    let mut client = SchedulerClient::with_slots(0, 6, 1);
    let mut shmem = container(1000, 0);
    let code = rtMalloc(&mut client, &mut shmem, &nobody(), 400, RT_ERROR_NONE, 0xF00);
    assert_eq!(code, RT_ERROR_NONE);
    assert_eq!(shmem.memory_used, 400);
    assert_eq!(shmem.procs[6].hbm_used[1], 400);
    assert_eq!(client.hbm_handle_map.get(&0xF00), Some(&400));
}

#[test]
fn an_allocation_beyond_the_limit_fails() {
    let mut client = SchedulerClient::with_slots(0, 6, 1);
    let mut shmem = container(1000, 700);
    let code = rtMalloc(&mut client, &mut shmem, &nobody(), 400, RT_ERROR_NONE, 0xF00);
    assert_eq!(code, RT_ERROR_MEMORY_ALLOCATION);
    assert_eq!(shmem.memory_used, 700);
    assert!(client.hbm_handle_map.is_empty());
}

#[test]
fn an_allocation_that_the_runtime_refuses_leaves_no_trace() {
    let mut client = SchedulerClient::with_slots(0, 6, 1);
    let mut shmem = container(1000, 100);
    let code = rtMalloc(&mut client, &mut shmem, &nobody(), 400, 507899, 0xF00);
    assert_eq!(code, RT_ERROR_MEMORY_ALLOCATION);
    assert_eq!(shmem.memory_used, 100);
    assert_eq!(shmem.procs[6].hbm_used[1], 0);
    assert!(client.hbm_handle_map.is_empty());
}

#[test]
fn without_a_limit_the_runtime_decides() {
    let mut client = SchedulerClient::with_slots(0, 6, 1);
    let mut shmem = container(0, 0);
    assert_eq!(rtMalloc(&mut client, &mut shmem, &nobody(), 400, 507899, 1), 507899);
    assert_eq!(rtMalloc(&mut client, &mut shmem, &nobody(), 400, 0, 1), 0);
    assert_eq!(shmem.memory_used, 0);
    assert!(client.hbm_handle_map.is_empty());
}

#[test]
fn a_release_undoes_an_allocation() {
    let mut client = SchedulerClient::with_slots(0, 6, 1);
    let mut shmem = container(1000, 100);
    rtMalloc(&mut client, &mut shmem, &nobody(), 400, RT_ERROR_NONE, 0xF00);
    assert_eq!(rtFree(&mut client, &mut shmem, 0xF00, RT_ERROR_NONE), RT_ERROR_NONE);
    assert_eq!(shmem.memory_used, 100);
    assert_eq!(shmem.procs[6].hbm_used[1], 0);
    assert!(client.hbm_handle_map.is_empty());
}

#[test]
fn a_release_that_the_runtime_refuses_changes_nothing() {
    let mut client = SchedulerClient::with_slots(0, 6, 1);
    let mut shmem = container(1000, 100);
    rtMalloc(&mut client, &mut shmem, &nobody(), 400, RT_ERROR_NONE, 0xF00);
    assert_eq!(rtFree(&mut client, &mut shmem, 0xF00, 3), 3);
    assert_eq!(shmem.memory_used, 500);
    assert_eq!(client.hbm_handle_map.len(), 1);
}

#[test]
fn a_release_of_an_unknown_handle_is_passed_on() {
    let mut client = SchedulerClient::with_slots(0, 6, 1);
    let mut shmem = container(1000, 100);
    assert_eq!(rtFree(&mut client, &mut shmem, 0xBAD, RT_ERROR_NONE), RT_ERROR_NONE);
    assert_eq!(shmem.memory_used, 100);
}

#[test]
fn the_runtime_is_not_called_for_a_refused_request() {
    let mut client = SchedulerClient::with_slots(0, 0, 0);
    let mut shmem = container(10, 10);
    let mut hook = MallocHook::start(&client, 1);
    let mut calls = 0;
    loop {
        match hook.step() {
            Step::Do(HookAction::Worker(WorkerAction::Memory(access))) => {
                let reply = shmem.perform(access);
                hook.advance(&mut client, reply);
            }
            Step::Do(HookAction::CallRuntime) => {
                calls += 1;
                hook.advance(&mut client, 0);
            }
            Step::Do(_) => hook.advance(&mut client, 0),
            Step::Done(code) => {
                assert_eq!(code, RT_ERROR_MEMORY_ALLOCATION);
                break;
            }
            Step::Overflow => panic!("the request fits"),
        }
    }
    assert_eq!(calls, 0);
}

#[test]
fn a_release_calls_the_runtime_first() {
    let mut client = SchedulerClient::with_slots(0, 0, 0);
    let mut hook = FreeHook::start(5);
    assert_eq!(hook.step(), Step::Do(HookAction::CallRuntime));
    hook.advance(&mut client, 0);
    let limit = WorkerAction::Memory(Access::Load(LocalCell::MemoryLimit));
    assert_eq!(hook.step(), Step::Do(HookAction::Worker(limit)));
    hook.advance(&mut client, 0);
    assert_eq!(hook.step(), Step::Done(0));
}

#[test]
fn free_and_total_memory_follow_the_limit() {
    let client = SchedulerClient::with_slots(0, 0, 0);
    let mut shmem = container(1024 * MIB, 0);
    shmem.procs[3].pid = 8;
    shmem.procs[3].hbm_used[0] = 512 * MIB;
    let procs = ProcessTable { live: vec![8] };
    let reply = rtMemGetInfoEx(&client, &mut shmem, &procs, 99);
    let report = MemoryReport { free: 384 * MIB, total: 1024 * MIB };
    assert_eq!(reply, (0, Some(report)));
    assert_eq!(shmem.memory_used, 512 * MIB);
}

#[test]
fn without_a_limit_the_runtime_reports_memory() {
    let client = SchedulerClient::with_slots(0, 0, 0);
    let mut shmem = container(0, 0);
    assert_eq!(rtMemGetInfoEx(&client, &mut shmem, &nobody(), 99), (99, None));
}

#[test]
fn a_query_is_shown_what_the_container_uses_of_a_device() {
    let client = SchedulerClient::with_slots(0, 0, 0);
    let mut shmem = container(8192, 0);
    shmem.procs[0].pid = 8;
    shmem.procs[0].hbm_used[3] = 2048;
    let procs = ProcessTable { live: vec![8] };
    let usage = device_usage(&client, &mut shmem, &procs, 3, 0);
    assert_eq!(usage, Some(DeviceUsage { quota: 8192, used: 2048 }));
    assert_eq!(device_usage(&client, &mut shmem, &procs, 3, -1), None);
    assert_eq!(device_usage(&client, &mut shmem, &procs, 99, -1), None);
    shmem.memory_limit = 0;
    assert_eq!(device_usage(&client, &mut shmem, &procs, 3, 0), None);
    assert_eq!(device_usage(&client, &mut shmem, &procs, 99, 0), None);
}

#[test]
fn memory_is_shown_in_kib() {
    let usage = Some(DeviceUsage { quota: 10 * 1024, used: 4 * 1024 - 1 });
    let mut info = DsmiMemoryInfoV2 { memory_size: 1, memory_available: 2 };
    dsmi_get_memory_info_v2(&mut info, None);
    assert_eq!(info, DsmiMemoryInfoV2 { memory_size: 1, memory_available: 2 });
    dsmi_get_memory_info_v2(&mut info, usage);
    assert_eq!(info, DsmiMemoryInfoV2 { memory_size: 10, memory_available: 7 });
    let mut hbm =
        HbmInfo { memory_size: 1, freq: 2, memory_usage: 3, temp: 4, bandwith_util_rate: 5 };
    dsmi_get_hbm_info(&mut hbm, usage);
    assert_eq!((hbm.memory_size, hbm.memory_usage), (10, 3));
    assert_eq!((hbm.freq, hbm.temp, hbm.bandwith_util_rate), (2, 4, 5));
}

#[test]
fn memory_is_shown_in_mib() {
    let mut info = DcmiMemoryInfoV3 {
        memory_size: 1,
        memory_available: 2,
        freq: 3,
        hugepagesize: 4,
        hugepages_total: 5,
        hugepages_free: 6,
        utiliza: 7,
        reserve: [9; 60],
    };
    dcmi_get_device_memory_info_v3(&mut info, Some(DeviceUsage { quota: 9 * MIB, used: 20 * MIB }));
    assert_eq!((info.memory_size, info.memory_available), (9, 0));
    dcmi_get_device_memory_info_v3(&mut info, Some(DeviceUsage { quota: 9 * MIB, used: 2 * MIB }));
    assert_eq!((info.memory_size, info.memory_available), (9, 7));
    assert_eq!((info.freq, info.hugepagesize, info.utiliza, info.reserve[59]), (3, 4, 7, 9));
}

#[test]
fn the_share_in_use_is_a_percentage() {
    let mut info = DcmiMemoryInfoStru { memory_size: 0, freq: 3, utiliza: 0 };
    dcmi_get_memory_info(&mut info, Some(DeviceUsage { quota: 3 * MIB, used: 2 * MIB }));
    assert_eq!((info.memory_size, info.freq, info.utiliza), (3, 3, 66));
    dcmi_get_memory_info(&mut info, Some(DeviceUsage { quota: 10, used: 10 }));
    assert_eq!((info.memory_size, info.utiliza), (0, 0));
    dcmi_get_memory_info(&mut info, Some(DeviceUsage { quota: MIB, used: 50_000_000 * MIB }));
    assert_eq!(info.utiliza, 5_000_000_000u64 as u32);
}

#[test]
fn utilization_is_passed_on_unless_the_query_failed() {
    let client = SchedulerClient::with_slots(0, 0, 0);
    assert_eq!(dsmi_get_device_utilization_rate(&client, 0, Some(40)), Some(40));
    assert_eq!(dsmi_get_device_utilization_rate(&client, 1, Some(40)), None);
    assert_eq!(dsmi_get_device_utilization_rate(&client, 0, None), None);
}

#[test]
fn the_counter_stays_the_sum_of_the_slots() {
    let procs = ProcessTable { live: vec![50, 51] };
    let mut shmem = container(1000, 0);
    let mut clients = vec![];
    for pid in [50, 51] {
        clients.push(SchedulerClient::new(&mut shmem, &procs, pid, 2).unwrap());
    }
    let mut handle = 0;
    for (i, size, ret) in [(0, 300, 0), (1, 200, 0), (0, 600, 0), (1, 100, 9), (1, 400, 0)] {
        handle += 1;
        rtMalloc(&mut clients[i], &mut shmem, &procs, size, ret, handle);
        let held: u64 = shmem.procs.iter().map(|p| p.hbm_used[2]).sum();
        assert_eq!(shmem.memory_used, held);
    }
    assert_eq!(shmem.memory_used, 900);
    for handle in 1..=5 {
        for client in &mut clients {
            rtFree(client, &mut shmem, handle, 0);
            let held: u64 = shmem.procs.iter().map(|p| p.hbm_used[2]).sum();
            assert_eq!(shmem.memory_used, held);
        }
    }
    assert_eq!(shmem.memory_used, 0);
    rtMalloc(&mut clients[0], &mut shmem, &procs, 40, 0, 9);
    for update in clients[0].release() {
        shmem.perform(update);
    }
    let left: u64 = shmem.procs.iter().map(|p| p.hbm_used[2]).sum();
    assert_eq!((shmem.memory_used, left), (40, 40));
    rtMalloc(&mut clients[1], &mut shmem, &procs, 990, 0, 10);
    let held: u64 = shmem.procs.iter().map(|p| p.hbm_used[2]).sum();
    assert_eq!((shmem.memory_used, held), (990, 990));
}
