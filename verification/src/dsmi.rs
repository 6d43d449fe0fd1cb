//! Standing in for queries of device management: they are shown the container's
//! limit in place of the device's memory.

use vstd::prelude::*;

use crate::access::{Access, Cell, Step, Width};
use crate::liveness::ProcessTable;
use crate::shmem::{LocalCell, LocalContainerShmem, MAX_PROCESSES, NPU_DEVICE_MAX};
use crate::worker::client::SchedulerClient;
use crate::worker::usage::UsageScan;
use crate::worker::WorkerAction;

verus! {

/// Bytes in a KiB.
pub const KB: u64 = 1024;

/// Bytes in a MiB.
pub const MB: u64 = 1_048_576;

/// Memory of a device, in KiB.
#[derive(Debug, Clone, Copy, PartialEq, Eq, Structural)]
pub struct DsmiMemoryInfoV2 {
    pub memory_size: u64,
    pub memory_available: u64,
}

/// High-bandwidth memory of a device, in KiB.
#[derive(Debug, Clone, Copy, PartialEq, Eq, Structural)]
pub struct HbmInfo {
    pub memory_size: u64,
    pub freq: u32,
    pub memory_usage: u64,
    pub temp: i32,
    pub bandwith_util_rate: u32,
}

/// Memory of a device, in MiB, and how much of it is in use, in percent.
#[derive(Debug, Clone, Copy, PartialEq, Eq, Structural)]
pub struct DcmiMemoryInfoStru {
    pub memory_size: u64,
    pub freq: u32,
    pub utiliza: u32,
}

/// Memory of a device, in MiB, as status tools show it.
#[derive(Debug, Clone, Copy)]
pub struct DcmiMemoryInfoV3 {
    pub memory_size: u64,
    pub memory_available: u64,
    pub freq: u32,
    pub hugepagesize: u64,
    pub hugepages_total: u64,
    pub hugepages_free: u64,
    pub utiliza: u32,
    pub reserve: [u8; 60],
}

/// The limit that takes the place of a device's memory, and what is in use, in
/// bytes.
#[derive(Debug, Clone, Copy, PartialEq, Eq, Structural)]
pub struct DeviceUsage {
    pub quota: u64,
    pub used: u64,
}

impl DeviceUsage {
    /// The limit, in units of some bytes.
    pub open spec fn size(self, unit: u64) -> u64 {
        self.quota / unit
    }

    /// What is in use, in units of some bytes.
    pub open spec fn usage(self, unit: u64) -> u64 {
        self.used / unit
    }

    /// What is left of the limit, in units of some bytes.
    pub open spec fn available(self, unit: u64) -> u64 {
        crate::worker::client::monus(self.size(unit) as int, self.usage(unit) as int) as u64
    }

    /// How much of the limit is in use, in percent of MiB; 0 where the limit is
    /// below a MiB.
    pub open spec fn percent(self) -> int {
        if self.size(MB) > 0 {
            self.usage(MB) as int * 100 / self.size(MB) as int
        } else {
            0
        }
    }
}

fn units_left(usage: &DeviceUsage, unit: u64) -> (units: u64)
    requires
        unit > 0,
    ensures
        units == usage.available(unit),
{
    let size: u64 = usage.quota / unit;
    let used: u64 = usage.used / unit;
    if size > used {
        size - used
    } else {
        0
    }
}

/// Shows the limit in a memory query, where it applies.
pub fn dsmi_get_memory_info_v2(info: &mut DsmiMemoryInfoV2, usage: Option<DeviceUsage>)
    ensures
        *final(info) == match usage {
            Some(usage) => (DsmiMemoryInfoV2 {
                memory_size: usage.size(KB),
                memory_available: usage.available(KB),
            }),
            None => *old(info),
        },
        *final(info) == old(info).shown(usage),
{
    if let Some(usage) = usage {
        info.memory_size = usage.quota / KB;
        info.memory_available = units_left(&usage, KB);
    }
}

/// Shows the limit in a memory query of status tools, where it applies.
pub fn dcmi_get_device_memory_info_v3(info: &mut DcmiMemoryInfoV3, usage: Option<DeviceUsage>)
    ensures
        *final(info) == match usage {
            Some(usage) => (DcmiMemoryInfoV3 {
                memory_size: usage.size(MB),
                memory_available: usage.available(MB),
                ..*old(info)
            }),
            None => *old(info),
        },
        *final(info) == old(info).shown(usage),
{
    if let Some(usage) = usage {
        info.memory_size = usage.quota / MB;
        info.memory_available = units_left(&usage, MB);
    }
}

/// Shows the limit in a memory query with a share in use, where it applies. A
/// share that does not fit in 32 bits is wrapped.
pub fn dcmi_get_memory_info(info: &mut DcmiMemoryInfoStru, usage: Option<DeviceUsage>)
    ensures
        *final(info) == match usage {
            Some(usage) => (DcmiMemoryInfoStru {
                memory_size: usage.size(MB),
                utiliza: (usage.percent() % Width::W32.span()) as u32,
                ..*old(info)
            }),
            None => *old(info),
        },
        *final(info) == old(info).shown(usage),
{
    if let Some(usage) = usage {
        let quota_mb: u64 = usage.quota / MB;
        let used_mb: u64 = usage.used / MB;
        info.memory_size = quota_mb;
        info.utiliza = if quota_mb > 0 {
            let percent: u64 = used_mb * 100 / quota_mb;
            (percent % 0x1_0000_0000) as u32
        } else {
            0
        };
    }
}

/// Shows the limit in a query of high-bandwidth memory, where it applies.
pub fn dsmi_get_hbm_info(info: &mut HbmInfo, usage: Option<DeviceUsage>)
    ensures
        *final(info) == match usage {
            Some(usage) => (HbmInfo {
                memory_size: usage.size(KB),
                memory_usage: usage.usage(KB),
                ..*old(info)
            }),
            None => *old(info),
        },
        *final(info) == old(info).shown(usage),
{
    if let Some(usage) = usage {
        info.memory_size = usage.quota / KB;
        info.memory_usage = usage.used / KB;
    }
}

/// The utilization to show for a device, given what its query returned and
/// showed. Nothing is shown where the query failed or has nowhere to show it.
pub fn dsmi_get_device_utilization_rate(
    client: &SchedulerClient,
    ret: i32,
    rate: Option<u32>,
) -> (shown: Option<u32>)
    ensures
        shown == if ret == 0 {
            rate
        } else {
            None
        },
{
    match rate {
        Some(device_util) => if ret == 0 {
            Some(client.get_compute_share(device_util))
        } else {
            None
        },
        None => None,
    }
}

/// Where a [`DeviceQuery`] stands.
#[derive(Debug, Clone, Copy, PartialEq, Eq, Structural)]
pub enum QueryPhase {
    ReadLimit,
    Scan(UsageScan),
    /// What is in use.
    ReadQuota(u64),
    Finished(Option<DeviceUsage>),
    Overflowed,
}

/// Finds out what a query is to be shown, once the device has answered it with a
/// code. There is nothing to show without a limit, or where the query failed.
#[derive(Debug, Clone, Copy, PartialEq, Eq, Structural)]
pub struct DeviceQuery {
    pub device: usize,
    pub ret: i32,
    pub phase: QueryPhase,
}

impl DeviceQuery {
    /// A query that has been answered.
    pub open spec fn initial(device: usize, ret: i32) -> DeviceQuery {
        DeviceQuery { device, ret, phase: QueryPhase::ReadLimit }
    }

    /// The query in another phase.
    pub open spec fn at(self, phase: QueryPhase) -> DeviceQuery {
        DeviceQuery { phase, ..self }
    }

    /// What the query asks for.
    pub open spec fn asks(self) -> Step<WorkerAction, Option<DeviceUsage>> {
        match self.phase {
            QueryPhase::ReadLimit | QueryPhase::ReadQuota(_) => Step::Do(
                WorkerAction::Memory(Access::Load(LocalCell::MemoryLimit)),
            ),
            QueryPhase::Scan(scan) => match scan.asks() {
                Step::Do(action) => Step::Do(action),
                _ => Step::Overflow,
            },
            QueryPhase::Finished(usage) => Step::Done(usage),
            QueryPhase::Overflowed => Step::Overflow,
        }
    }

    /// The query once it has the reply to what it asked.
    pub open spec fn next(self, reply: u64) -> DeviceQuery {
        match self.phase {
            QueryPhase::ReadLimit => if reply > 0 && self.ret == 0 {
                self.at(QueryPhase::Scan(UsageScan::initial(self.device)))
            } else {
                self.at(QueryPhase::Finished(None))
            },
            QueryPhase::Scan(scan) => {
                let further = scan.next(reply);
                match further.asks() {
                    Step::Do(_) => self.at(QueryPhase::Scan(further)),
                    Step::Done(used) => self.at(QueryPhase::ReadQuota(used)),
                    Step::Overflow => self.at(QueryPhase::Overflowed),
                }
            },
            QueryPhase::ReadQuota(used) => self.at(
                QueryPhase::Finished(Some(DeviceUsage { quota: reply, used })),
            ),
            QueryPhase::Finished(_) => self,
            QueryPhase::Overflowed => self,
        }
    }

    /// Starts with the code that the device's answer came with.
    pub fn start(device: usize, ret: i32) -> (query: DeviceQuery)
        ensures
            query == DeviceQuery::initial(device, ret),
    {
        DeviceQuery { device, ret, phase: QueryPhase::ReadLimit }
    }

    /// Tells what to do next.
    pub fn step(&self) -> (step: Step<WorkerAction, Option<DeviceUsage>>)
        ensures
            step == self.asks(),
    {
        match &self.phase {
            QueryPhase::ReadLimit | QueryPhase::ReadQuota(_) => Step::Do(
                WorkerAction::Memory(Access::Load(LocalCell::MemoryLimit)),
            ),
            QueryPhase::Scan(scan) => match scan.step() {
                Step::Do(action) => Step::Do(action),
                _ => Step::Overflow,
            },
            QueryPhase::Finished(usage) => Step::Done(*usage),
            QueryPhase::Overflowed => Step::Overflow,
        }
    }

    /// Takes the reply to what was asked, for a client.
    pub fn advance(&mut self, client: &SchedulerClient, reply: u64)
        ensures
            *final(self) == old(self).next(reply),
    {
        match self.phase {
            QueryPhase::ReadLimit => {
                if client.is_hbm_limited(reply) && self.ret == 0 {
                    self.phase = QueryPhase::Scan(UsageScan::start(self.device));
                } else {
                    self.phase = QueryPhase::Finished(None);
                }
            },
            QueryPhase::Scan(scan) => {
                let mut further = scan;
                further.advance(reply);
                self.phase = match further.step() {
                    Step::Do(_) => QueryPhase::Scan(further),
                    Step::Done(used) => QueryPhase::ReadQuota(used),
                    Step::Overflow => QueryPhase::Overflowed,
                };
            },
            QueryPhase::ReadQuota(used) => {
                let quota: u64 = client.get_hbm_quota(reply);
                self.phase = QueryPhase::Finished(Some(DeviceUsage { quota, used }));
            },
            QueryPhase::Finished(_) => {},
            QueryPhase::Overflowed => {},
        }
    }
}

/// Finds out what a query is to be shown, on a segment that is held alone, given
/// the code that the device's answer came with.
pub fn device_usage(
    client: &SchedulerClient,
    shmem: &mut LocalContainerShmem,
    procs: &ProcessTable,
    device: usize,
    ret: i32,
) -> (usage: Option<DeviceUsage>)
    requires
        old(shmem)@[LocalCell::MemoryLimit] > 0 && ret == 0 ==> {
            &&& device < NPU_DEVICE_MAX
            &&& crate::worker::usage::usage_fits(old(shmem)@, procs@, device)
        },
    ensures
        ({
            let quota = old(shmem)@[LocalCell::MemoryLimit];
            if quota > 0 && ret == 0 {
                &&& usage == Some(
                    DeviceUsage {
                        quota,
                        used: crate::worker::usage::held_usage(
                            old(shmem)@,
                            procs@,
                            device,
                            MAX_PROCESSES as nat,
                        ) as u64,
                    },
                )
                &&& final(shmem)@ == crate::worker::usage::reclaimed(old(shmem)@, procs@, device)
            } else {
                usage is None && final(shmem)@ == old(shmem)@
            }
        }),
{
    let ghost before = shmem@;
    let ghost limit = before[LocalCell::MemoryLimit];
    let mut query = DeviceQuery::start(device, ret);
    proof {
        crate::worker::usage::lemma_scan_starts(before, procs@, device);
        assert(crate::access::effect(before, Access::Load(LocalCell::MemoryLimit)) =~= before);
    }
    loop
        invariant
            before == old(shmem)@,
            limit == before[LocalCell::MemoryLimit],
            query.device == device,
            query.ret == ret,
            limit > 0 && ret == 0 ==> {
                &&& device < NPU_DEVICE_MAX
                &&& crate::worker::usage::usage_fits(before, procs@, device)
            },
            UsageScan::initial(device).runs(before, before, procs@, device),
            crate::access::effect(before, Access::Load(LocalCell::MemoryLimit)) == before,
            forall|c: LocalCell| c.valid() <==> #[trigger] before.dom().contains(c),
            forall|i: usize|
                #![auto]
                i < MAX_PROCESSES ==> before[LocalCell::ProcPid(i)] < Width::W32.span(),
            match query.phase {
                QueryPhase::ReadLimit => shmem@ == before,
                QueryPhase::Scan(scan) => {
                    &&& limit > 0 && ret == 0
                    &&& scan.asks() is Do
                    &&& scan.runs(before, shmem@, procs@, device)
                    &&& 0 <= scan.remaining() <= UsageScan::initial(device).remaining()
                },
                QueryPhase::ReadQuota(used) => {
                    &&& limit > 0 && ret == 0
                    &&& used == crate::worker::usage::held_usage(
                        before,
                        procs@,
                        device,
                        MAX_PROCESSES as nat,
                    )
                    &&& shmem@ == crate::worker::usage::reclaimed(before, procs@, device)
                },
                QueryPhase::Finished(usage) => if limit > 0 && ret == 0 {
                    &&& usage == Some(
                        DeviceUsage {
                            quota: limit,
                            used: crate::worker::usage::held_usage(
                                before,
                                procs@,
                                device,
                                MAX_PROCESSES as nat,
                            ) as u64,
                        },
                    )
                    &&& shmem@ == crate::worker::usage::reclaimed(before, procs@, device)
                } else {
                    usage is None && shmem@ == before
                },
                QueryPhase::Overflowed => false,
            },
        decreases
            match query.phase {
                QueryPhase::ReadLimit => 3 + UsageScan::initial(device).remaining(),
                QueryPhase::Scan(scan) => 2 + scan.remaining(),
                QueryPhase::ReadQuota(_) => 1,
                _ => 0,
            },
    {
        proof {
            if let QueryPhase::Scan(scan) = query.phase {
                crate::worker::usage::lemma_scan_turn(scan, before, shmem@, procs@, device);
            }
        }
        match query.step() {
            Step::Do(WorkerAction::Memory(access)) => {
                let ghost seen = shmem@;
                let reply: u64 = shmem.perform(access);
                query.advance(client, reply);
                assert(access is Load ==> shmem@ =~= seen);
            },
            Step::Do(WorkerAction::CheckAlive(pid)) => {
                let reply: u64 = if procs.is_alive(pid) { 1 } else { 0 };
                query.advance(client, reply);
            },
            Step::Done(usage) => {
                return usage;
            },
            _ => {
                assert(false);
                return None;
            },
        }
    }
}

/// A query is never shown more memory left than there is in all, and where the
/// limit is not exceeded, what is left and what is in use make up the whole.
pub proof fn law_shown_memory_adds_up(usage: DeviceUsage, unit: u64)
    requires
        unit > 0,
    ensures
        usage.available(unit) <= usage.size(unit),
        usage.used <= usage.quota ==> usage.available(unit) + usage.usage(unit) == usage.size(unit),
{
    if usage.used <= usage.quota {
        vstd::arithmetic::div_mod::lemma_div_is_ordered(
            usage.used as int,
            usage.quota as int,
            unit as int,
        );
    }
}

/// Where the limit is not exceeded, the share in use that a query is shown is a
/// percentage, and none is lost to wrapping.
pub proof fn law_shown_share_is_percentage(usage: DeviceUsage)
    requires
        usage.used <= usage.quota,
    ensures
        0 <= usage.percent() <= 100,
        usage.percent() % Width::W32.span() == usage.percent(),
{
    let used = usage.usage(MB) as int;
    let size = usage.size(MB) as int;
    if size > 0 {
        assert(0 <= used * 100 / size <= 100) by (nonlinear_arith)
            requires
                0 <= used <= size,
                size > 0,
        ;
    }
}

/// What a memory query is shown: of the limit whole KiB, and of these as many as
/// available as those in use leave, or none. Without a limit it is shown what the
/// device answered.
pub proof fn law_memory_query_shows_kib(info: DsmiMemoryInfoV2, usage: DeviceUsage)
    ensures
        info.shown(None) == info,
        ({
            let shown = info.shown(Some(usage));
            let size = usage.quota / 1024;
            let used = usage.used / 1024;
            &&& shown.memory_size == size
            &&& shown.memory_size * 1024 <= usage.quota < (shown.memory_size + 1) * 1024
            &&& size >= used ==> shown.memory_available == size - used
            &&& size < used ==> shown.memory_available == 0
        }),
{
}

/// What a memory query of status tools is shown: of the limit whole MiB, and of these
/// as many as available as those in use leave, or none. All else, and all of it
/// without a limit, is what the device answered.
pub proof fn law_status_query_shows_mib(info: DcmiMemoryInfoV3, usage: DeviceUsage)
    ensures
        info.shown(None) == info,
        ({
            let shown = info.shown(Some(usage));
            let size = usage.quota / 1_048_576;
            let used = usage.used / 1_048_576;
            &&& shown.memory_size == size
            &&& shown.memory_size * 1_048_576 <= usage.quota < (shown.memory_size + 1) * 1_048_576
            &&& size >= used ==> shown.memory_available == size - used
            &&& size < used ==> shown.memory_available == 0
            &&& shown.freq == info.freq
            &&& shown.hugepagesize == info.hugepagesize
            &&& shown.hugepages_total == info.hugepages_total
            &&& shown.hugepages_free == info.hugepages_free
            &&& shown.utiliza == info.utiliza
            &&& shown.reserve == info.reserve
        }),
{
}

/// What a memory query with a share in use is shown: of the limit whole MiB, and the
/// largest number of percent of these that those in use reach, where it fits in 32
/// bits; no percent where the limit is below a MiB. The frequency, and all of it
/// without a limit, is what the device answered.
pub proof fn law_share_query_shows_percent(info: DcmiMemoryInfoStru, usage: DeviceUsage)
    ensures
        info.shown(None) == info,
        ({
            let shown = info.shown(Some(usage));
            let size = usage.quota / 1_048_576;
            let used = usage.used / 1_048_576;
            &&& shown.memory_size == size
            &&& shown.freq == info.freq
            &&& size == 0 ==> shown.utiliza == 0
            &&& size > 0 && used * 100 < size * 0x1_0000_0000 ==> shown.utiliza * size <= used * 100
                < (shown.utiliza + 1) * size
        }),
{
    let size = usage.quota as int / 1_048_576;
    let used = usage.used as int / 1_048_576;
    assert(usage.size(MB) == size);
    assert(usage.usage(MB) == used);
    if size > 0 && used * 100 < size * 0x1_0000_0000 {
        let percent = used * 100 / size;
        assert(percent * size <= used * 100 < (percent + 1) * size && 0 <= percent < 0x1_0000_0000)
            by (nonlinear_arith)
            requires
                percent == used * 100 / size,
                size > 0,
                used >= 0,
                used * 100 < size * 0x1_0000_0000,
        ;
        vstd::arithmetic::div_mod::lemma_small_mod(percent as nat, 0x1_0000_0000);
    }
}

/// What a query of high-bandwidth memory is shown: of the limit, and of what is in
/// use, whole KiB. All else, and all of it without a limit, is what the device
/// answered.
pub proof fn law_hbm_query_shows_kib(info: HbmInfo, usage: DeviceUsage)
    ensures
        info.shown(None) == info,
        ({
            let shown = info.shown(Some(usage));
            &&& shown.memory_size * 1024 <= usage.quota < (shown.memory_size + 1) * 1024
            &&& shown.memory_usage * 1024 <= usage.used < (shown.memory_usage + 1) * 1024
            &&& shown.freq == info.freq
            &&& shown.temp == info.temp
            &&& shown.bandwith_util_rate == info.bandwith_util_rate
        }),
{
}

impl DsmiMemoryInfoV2 {
    /// What is shown in place of the device's answer.
    pub open spec fn shown(self, usage: Option<DeviceUsage>) -> DsmiMemoryInfoV2 {
        match usage {
            Some(usage) => DsmiMemoryInfoV2 {
                memory_size: usage.size(KB),
                memory_available: usage.available(KB),
            },
            None => self,
        }
    }
}

impl DcmiMemoryInfoV3 {
    /// What is shown in place of the device's answer.
    pub open spec fn shown(self, usage: Option<DeviceUsage>) -> DcmiMemoryInfoV3 {
        match usage {
            Some(usage) => DcmiMemoryInfoV3 {
                memory_size: usage.size(MB),
                memory_available: usage.available(MB),
                ..self
            },
            None => self,
        }
    }
}

impl DcmiMemoryInfoStru {
    /// What is shown in place of the device's answer.
    pub open spec fn shown(self, usage: Option<DeviceUsage>) -> DcmiMemoryInfoStru {
        match usage {
            Some(usage) => DcmiMemoryInfoStru {
                memory_size: usage.size(MB),
                utiliza: (usage.percent() % Width::W32.span()) as u32,
                ..self
            },
            None => self,
        }
    }
}

impl HbmInfo {
    /// What is shown in place of the device's answer.
    pub open spec fn shown(self, usage: Option<DeviceUsage>) -> HbmInfo {
        match usage {
            Some(usage) => HbmInfo {
                memory_size: usage.size(KB),
                memory_usage: usage.usage(KB),
                ..self
            },
            None => self,
        }
    }
}

impl DeviceQuery {
    /// Whether the query asks for an access to the segment.
    pub open spec fn asks_for(self, access: Access<LocalCell>) -> bool {
        self.asks() == Step::<WorkerAction, Option<DeviceUsage>>::Do(WorkerAction::Memory(access))
    }
}

/// Whatever others do meanwhile, a query that failed, or for which there is no limit,
/// is shown nothing. Otherwise usage of the queried device is recalculated, and what
/// live processes hold is shown with the limit, which is read again.
pub proof fn law_query_shows_limit_and_usage(
    device: usize,
    code: i32,
    limit: u64,
    query: DeviceQuery,
    scan: UsageScan,
    reply: u64,
    quota: u64,
)
    requires
        query.phase == QueryPhase::Scan(scan),
        scan.asks() is Do,
    ensures
        ({
            let start = DeviceQuery::initial(device, code);
            &&& start.asks_for(Access::Load(LocalCell::MemoryLimit))
            &&& limit == 0 || code != 0 ==> start.next(limit).asks() == Step::<
                WorkerAction,
                Option<DeviceUsage>,
            >::Done(None)
            &&& limit > 0 && code == 0 ==> start.next(limit).phase == QueryPhase::Scan(
                UsageScan::initial(device),
            )
        }),
        query.asks() == Step::<WorkerAction, Option<DeviceUsage>>::Do(scan.asks()->Do_0),
        scan.next(reply).asks() is Do ==> query.next(reply).phase == QueryPhase::Scan(
            scan.next(reply),
        ),
        scan.next(reply).asks() matches Step::Done(used) ==> {
            let last = query.next(reply);
            &&& last.asks_for(Access::Load(LocalCell::MemoryLimit))
            &&& last.next(quota).asks() matches Step::Done(Some(usage)) && usage.quota == quota
                && usage.used == used
        },
        scan.next(reply).asks() is Overflow ==> query.next(reply).asks() is Overflow,
{
}

} // verus!
