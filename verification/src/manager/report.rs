//! Putting the workers' reports of a batch together.

use vstd::prelude::*;

use crate::access::{Access, Cell, Step};
use crate::manager::slot::ContainerManager;
use crate::manager::ManagerAction;
use crate::shmem::{LocalCell, LocalContainerShmem, MAX_WORKERS};

verus! {

/// Where a [`ReportScan`] stands.
#[derive(Debug, Clone, Copy, PartialEq, Eq, Structural)]
pub enum ReportPhase {
    ReadBatch,
    ReadStart,
    ReadDuration(u64),
    Finished,
    Overflowed,
}

/// Finds out how long a batch took: from the earliest start to the latest end
/// that workers report. The result is that time and the tokens that the batch
/// used, or zeros where no worker reports work.
#[derive(Debug, Clone, Copy, PartialEq, Eq, Structural)]
pub struct ReportScan {
    pub batch_id: u64,
    pub tokens: u64,
    pub index: usize,
    pub earliest: u64,
    pub latest: u64,
    /// Whether any worker reports work.
    pub any: bool,
    pub phase: ReportPhase,
}

impl ReportScan {
    /// A scan that has not looked at any report.
    pub open spec fn initial(batch_id: u64, tokens: u64) -> ReportScan {
        ReportScan {
            batch_id,
            tokens,
            index: 0,
            earliest: u64::MAX,
            latest: 0,
            any: false,
            phase: ReportPhase::ReadBatch,
        }
    }

    /// The scan in another phase.
    pub open spec fn at(self, phase: ReportPhase) -> ReportScan {
        ReportScan { phase, ..self }
    }

    /// What the reports seen so far add up to.
    pub open spec fn totals(self) -> (u64, u64) {
        if !self.any {
            (0, 0)
        } else if self.latest > self.earliest {
            ((self.latest - self.earliest) as u64, self.tokens)
        } else {
            (0, self.tokens)
        }
    }

    /// What the scan asks for.
    pub open spec fn asks(self) -> Step<ManagerAction, (u64, u64)> {
        match self.phase {
            ReportPhase::ReadBatch => Step::Do(
                ManagerAction::Local(Access::Load(LocalCell::ReportBatchId(self.index))),
            ),
            ReportPhase::ReadStart => Step::Do(
                ManagerAction::Local(Access::Load(LocalCell::ReportCpuStart(self.index))),
            ),
            ReportPhase::ReadDuration(_) => Step::Do(
                ManagerAction::Local(Access::Load(LocalCell::ReportDuration(self.index))),
            ),
            ReportPhase::Finished => Step::Done(self.totals()),
            ReportPhase::Overflowed => Step::Overflow,
        }
    }

    /// The scan behind the current report.
    pub open spec fn past_report(self) -> ReportScan {
        if self.index + 1 < MAX_WORKERS {
            ReportScan { index: (self.index + 1) as usize, phase: ReportPhase::ReadBatch, ..self }
        } else {
            self.at(ReportPhase::Finished)
        }
    }

    /// The scan with one more stretch of work.
    pub open spec fn with_work(self, start: u64, end: u64) -> ReportScan {
        ReportScan {
            earliest: if start < self.earliest {
                start
            } else {
                self.earliest
            },
            latest: if end > self.latest {
                end
            } else {
                self.latest
            },
            any: true,
            ..self
        }
    }

    /// The scan once it has the reply to what it asked.
    pub open spec fn next(self, reply: u64) -> ReportScan {
        match self.phase {
            ReportPhase::ReadBatch => if reply == self.batch_id {
                self.at(ReportPhase::ReadStart)
            } else {
                self.past_report()
            },
            ReportPhase::ReadStart => self.at(ReportPhase::ReadDuration(reply)),
            ReportPhase::ReadDuration(start) => if reply == 0 {
                self.past_report()
            } else if start + reply > u64::MAX {
                self.at(ReportPhase::Overflowed)
            } else {
                self.with_work(start, (start + reply) as u64).past_report()
            },
            ReportPhase::Finished => self,
            ReportPhase::Overflowed => self,
        }
    }

    /// Starts a scan.
    pub fn start(batch_id: u64, tokens: u64) -> (scan: ReportScan)
        ensures
            scan == ReportScan::initial(batch_id, tokens),
    {
        ReportScan {
            batch_id,
            tokens,
            index: 0,
            earliest: u64::MAX,
            latest: 0,
            any: false,
            phase: ReportPhase::ReadBatch,
        }
    }

    /// Tells what to do next.
    pub fn step(&self) -> (step: Step<ManagerAction, (u64, u64)>)
        ensures
            step == self.asks(),
    {
        let cell = match self.phase {
            ReportPhase::ReadBatch => LocalCell::ReportBatchId(self.index),
            ReportPhase::ReadStart => LocalCell::ReportCpuStart(self.index),
            ReportPhase::ReadDuration(_) => LocalCell::ReportDuration(self.index),
            ReportPhase::Finished => {
                return Step::Done(
                    if !self.any {
                        (0, 0)
                    } else if self.latest > self.earliest {
                        (self.latest - self.earliest, self.tokens)
                    } else {
                        (0, self.tokens)
                    },
                );
            },
            ReportPhase::Overflowed => {
                return Step::Overflow;
            },
        };
        Step::Do(ManagerAction::Local(Access::Load(cell)))
    }

    fn leave_report(&mut self)
        ensures
            *final(self) == old(self).past_report(),
    {
        if self.index < MAX_WORKERS - 1 {
            self.index = self.index + 1;
            self.phase = ReportPhase::ReadBatch;
        } else {
            self.phase = ReportPhase::Finished;
        }
    }

    /// Takes the reply to what was asked.
    pub fn advance(&mut self, reply: u64)
        ensures
            *final(self) == old(self).next(reply),
    {
        match self.phase {
            ReportPhase::ReadBatch => {
                if reply == self.batch_id {
                    self.phase = ReportPhase::ReadStart;
                } else {
                    self.leave_report();
                }
            },
            ReportPhase::ReadStart => {
                self.phase = ReportPhase::ReadDuration(reply);
            },
            ReportPhase::ReadDuration(start) => {
                if reply == 0 {
                    self.leave_report();
                } else {
                    match start.checked_add(reply) {
                        None => {
                            self.phase = ReportPhase::Overflowed;
                        },
                        Some(end) => {
                            if start < self.earliest {
                                self.earliest = start;
                            }
                            if end > self.latest {
                                self.latest = end;
                            }
                            self.any = true;
                            self.leave_report();
                        },
                    }
                }
            },
            ReportPhase::Finished => {},
            ReportPhase::Overflowed => {},
        }
    }
}

/// Whether a worker reports work in a batch.
pub open spec fn took_part(memory: Map<LocalCell, u64>, batch_id: u64, worker: int) -> bool {
    &&& memory[LocalCell::ReportBatchId(worker as usize)] == batch_id
    &&& memory[LocalCell::ReportDuration(worker as usize)] > 0
}

/// When a worker reports to have started.
pub open spec fn work_start(memory: Map<LocalCell, u64>, worker: int) -> int {
    memory[LocalCell::ReportCpuStart(worker as usize)] as int
}

/// When a worker reports to have ended.
pub open spec fn work_end(memory: Map<LocalCell, u64>, worker: int) -> int {
    memory[LocalCell::ReportCpuStart(worker as usize)] + memory[LocalCell::ReportDuration(
        worker as usize,
    )]
}

/// Whether `start` and `end` are the earliest start and the latest end of the
/// work that the first workers report.
pub open spec fn is_span(
    memory: Map<LocalCell, u64>,
    batch_id: u64,
    workers: int,
    start: int,
    end: int,
) -> bool {
    &&& forall|i: int|
        #![trigger took_part(memory, batch_id, i)]
        0 <= i < workers && took_part(memory, batch_id, i) ==> start <= work_start(memory, i)
            && work_end(memory, i) <= end
    &&& exists|i: int|
        #![trigger took_part(memory, batch_id, i)]
        0 <= i < workers && took_part(memory, batch_id, i) && work_start(memory, i) == start
    &&& exists|i: int|
        #![trigger took_part(memory, batch_id, i)]
        0 <= i < workers && took_part(memory, batch_id, i) && work_end(memory, i) == end
}

/// What a batch amounts to: the span of the work that is reported, and the
/// tokens used; zeros where none is.
pub open spec fn batch_totals(
    memory: Map<LocalCell, u64>,
    batch_id: u64,
    tokens: u64,
    totals: (u64, u64),
) -> bool {
    if exists|i: int| 0 <= i < MAX_WORKERS && took_part(memory, batch_id, i) {
        &&& exists|start: int, end: int|
            #[trigger] is_span(memory, batch_id, MAX_WORKERS as int, start, end) && totals.0 == end
                - start
        &&& totals.1 == tokens
    } else {
        totals == (0u64, 0u64)
    }
}

impl ReportScan {
    /// How a scan relates to a segment that nobody changes meanwhile.
    pub open spec fn runs(self, memory: Map<LocalCell, u64>) -> bool {
        let seen = if self.phase is Finished {
            MAX_WORKERS as int
        } else {
            self.index as int
        };
        &&& self.index < MAX_WORKERS
        &&& if self.any {
            is_span(memory, self.batch_id, seen, self.earliest as int, self.latest as int)
        } else {
            &&& self.earliest == u64::MAX && self.latest == 0
            &&& forall|i: int| 0 <= i < seen ==> !took_part(memory, self.batch_id, i)
        }
        &&& match self.phase {
            ReportPhase::ReadStart => memory[LocalCell::ReportBatchId(self.index)]
                == self.batch_id,
            ReportPhase::ReadDuration(start) => {
                &&& memory[LocalCell::ReportBatchId(self.index)] == self.batch_id
                &&& memory[LocalCell::ReportCpuStart(self.index)] == start
            },
            ReportPhase::Overflowed => false,
            _ => true,
        }
    }

    /// How many replies the scan may still need.
    pub open spec fn remaining(self) -> int {
        match self.phase {
            ReportPhase::ReadBatch => 3 + (MAX_WORKERS - self.index) * 3,
            ReportPhase::ReadStart => 2 + (MAX_WORKERS - self.index) * 3,
            ReportPhase::ReadDuration(_) => 1 + (MAX_WORKERS - self.index) * 3,
            _ => 0,
        }
    }
}

/// A scan stays on course, and comes nearer to its end, with every reply.
pub(crate) proof fn lemma_report_turn(scan: ReportScan, memory: Map<LocalCell, u64>)
    requires
        scan.runs(memory),
        scan.asks() is Do,
        forall|i: int|
            0 <= i < MAX_WORKERS && #[trigger] took_part(memory, scan.batch_id, i) ==> work_end(
                memory,
                i,
            ) <= u64::MAX,
    ensures
        scan.asks() matches Step::Do(ManagerAction::Local(Access::Load(cell))) && cell.valid() && {
            let after = scan.next(memory[cell]);
            &&& after.runs(memory)
            &&& after.batch_id == scan.batch_id && after.tokens == scan.tokens
            &&& 0 <= after.remaining() < scan.remaining()
        },
{
    let i = scan.index as int;
    let cell = match scan.phase {
        ReportPhase::ReadBatch => LocalCell::ReportBatchId(scan.index),
        ReportPhase::ReadStart => LocalCell::ReportCpuStart(scan.index),
        _ => LocalCell::ReportDuration(scan.index),
    };
    let after = scan.next(memory[cell]);
    let batch = scan.batch_id;
    if scan.any {
        let first = choose|j: int|
            #![trigger took_part(memory, batch, j)]
            0 <= j < i && took_part(memory, batch, j) && work_start(memory, j) == scan.earliest;
        let last = choose|j: int|
            #![trigger took_part(memory, batch, j)]
            0 <= j < i && took_part(memory, batch, j) && work_end(memory, j) == scan.latest;
        assert(took_part(memory, batch, first) && work_start(memory, first) == scan.earliest);
        assert(took_part(memory, batch, last) && work_end(memory, last) == scan.latest);
    }
    match scan.phase {
        ReportPhase::ReadBatch => {
            if memory[cell] != batch {
                assert(!took_part(memory, batch, i));
            }
        },
        ReportPhase::ReadDuration(start) => {
            if memory[cell] == 0 {
                assert(!took_part(memory, batch, i));
            } else {
                assert(took_part(memory, batch, i));
                assert(work_start(memory, i) == start);
            }
        },
        _ => {},
    }
}

/// A scan that has come to its end has put the reports together.
pub(crate) proof fn lemma_report_done(
    scan: ReportScan,
    memory: Map<LocalCell, u64>,
    totals: (u64, u64),
)
    requires
        scan.runs(memory),
        scan.asks() == Step::<ManagerAction, (u64, u64)>::Done(totals),
    ensures
        batch_totals(memory, scan.batch_id, scan.tokens, totals),
{
    let batch = scan.batch_id;
    if scan.any {
        let (start, end) = (scan.earliest as int, scan.latest as int);
        assert(is_span(memory, batch, MAX_WORKERS as int, start, end));
        assert(start < end) by {
            let i = choose|i: int|
                #![trigger took_part(memory, batch, i)]
                0 <= i < MAX_WORKERS && took_part(memory, batch, i) && work_start(memory, i)
                    == start;
            assert(work_end(memory, i) <= end);
        }
    }
}

impl ContainerManager {
    /// Puts the reports of a batch together, in a segment that nobody changes
    /// meanwhile.
    pub fn aggregate_local_times(
        shmem: &LocalContainerShmem,
        batch_id: u64,
        tokens_for_stats: u64,
    ) -> (totals: (u64, u64))
        requires
            forall|i: int|
                0 <= i < MAX_WORKERS && #[trigger] took_part(shmem@, batch_id, i) ==> work_end(
                    shmem@,
                    i,
                ) <= u64::MAX,
        ensures
            batch_totals(shmem@, batch_id, tokens_for_stats, totals),
    {
        let mut scan = ReportScan::start(batch_id, tokens_for_stats);
        loop
            invariant
                forall|i: int|
                    0 <= i < MAX_WORKERS && #[trigger] took_part(shmem@, batch_id, i) ==> work_end(
                        shmem@,
                        i,
                    ) <= u64::MAX,
                scan.batch_id == batch_id,
                scan.tokens == tokens_for_stats,
                scan.runs(shmem@),
            decreases scan.remaining(),
        {
            proof {
                if scan.asks() is Do {
                    lemma_report_turn(scan, shmem@);
                }
            }
            match scan.step() {
                Step::Do(ManagerAction::Local(Access::Load(cell))) => {
                    let reply: u64 = shmem.read(cell);
                    scan.advance(reply);
                },
                Step::Done(totals) => {
                    proof {
                        lemma_report_done(scan, shmem@, totals);
                    }
                    return totals;
                },
                _ => {
                    assert(false);
                    return (0, 0);
                },
            }
        }
    }
}

/// A batch in which workers report work has taken some time.
pub proof fn law_reported_work_takes_time(
    memory: Map<LocalCell, u64>,
    batch_id: u64,
    tokens: u64,
    totals: (u64, u64),
    worker: int,
)
    requires
        0 <= worker < MAX_WORKERS,
        took_part(memory, batch_id, worker),
        batch_totals(memory, batch_id, tokens, totals),
    ensures
        totals.0 >= memory[LocalCell::ReportDuration(worker as usize)],
        totals.0 > 0,
        totals.1 == tokens,
{
    let (start, end) = choose|start: int, end: int|
        #[trigger] is_span(memory, batch_id, MAX_WORKERS as int, start, end) && totals.0 == end
            - start;
    assert(start <= work_start(memory, worker) && work_end(memory, worker) <= end);
}

/// In words of the segment: where none of the 32 workers reports work in the batch,
/// the totals are zeros. Otherwise all tokens count, and the time is that from some
/// worker's start to some worker's end, such that no other two lie further apart.
pub proof fn law_batch_spans_reported_work(
    memory: Map<LocalCell, u64>,
    batch_id: u64,
    tokens: u64,
    totals: (u64, u64),
)
    requires
        batch_totals(memory, batch_id, tokens, totals),
    ensures
        (forall|i: usize|
            i < 32 && #[trigger] memory[LocalCell::ReportBatchId(i)] == batch_id ==> memory[
                LocalCell::ReportDuration(i)
            ] == 0) ==> totals == (0u64, 0u64),
        forall|i: usize, j: usize|
            i < 32 && j < 32 && #[trigger] memory[LocalCell::ReportBatchId(i)] == batch_id
                && #[trigger] memory[LocalCell::ReportBatchId(j)] == batch_id && memory[
                LocalCell::ReportDuration(i)
            ] > 0 && memory[LocalCell::ReportDuration(j)] > 0 ==> {
                &&& totals.1 == tokens
                &&& totals.0 >= memory[LocalCell::ReportCpuStart(j)] + memory[
                    LocalCell::ReportDuration(j)
                ] - memory[LocalCell::ReportCpuStart(i)]
            },
        totals.0 != 0 || totals.1 != 0 ==> exists|i: usize, j: usize|
            i < 32 && j < 32 && #[trigger] memory[LocalCell::ReportBatchId(i)] == batch_id
                && #[trigger] memory[LocalCell::ReportBatchId(j)] == batch_id && memory[
                LocalCell::ReportDuration(i)
            ] > 0 && memory[LocalCell::ReportDuration(j)] > 0 && totals.0 == memory[
                LocalCell::ReportCpuStart(j)
            ] + memory[LocalCell::ReportDuration(j)] - memory[LocalCell::ReportCpuStart(i)],
{
    let some = exists|i: int| 0 <= i < MAX_WORKERS && took_part(memory, batch_id, i);
    assert forall|i: usize|
        i < 32 && #[trigger] memory[LocalCell::ReportBatchId(i)] == batch_id && memory[
            LocalCell::ReportDuration(i)
        ] > 0 implies took_part(memory, batch_id, i as int) by {}
    if some {
        let (start, end) = choose|start: int, end: int|
            #[trigger] is_span(memory, batch_id, MAX_WORKERS as int, start, end) && totals.0 == end
                - start;
        let first = choose|i: int|
            #![trigger took_part(memory, batch_id, i)]
            0 <= i < MAX_WORKERS && took_part(memory, batch_id, i) && work_start(memory, i)
                == start;
        let last = choose|i: int|
            #![trigger took_part(memory, batch_id, i)]
            0 <= i < MAX_WORKERS && took_part(memory, batch_id, i) && work_end(memory, i) == end;
        assert(took_part(memory, batch_id, first) && work_start(memory, first) == start);
        assert(took_part(memory, batch_id, last) && work_end(memory, last) == end);
        assert(memory[LocalCell::ReportBatchId(first as usize)] == batch_id);
        assert(memory[LocalCell::ReportBatchId(last as usize)] == batch_id);
        assert forall|i: usize, j: usize|
            i < 32 && j < 32 && #[trigger] memory[LocalCell::ReportBatchId(i)] == batch_id
                && #[trigger] memory[LocalCell::ReportBatchId(j)] == batch_id && memory[
                LocalCell::ReportDuration(i)
            ] > 0 && memory[LocalCell::ReportDuration(j)] > 0 implies totals.0 >= memory[
            LocalCell::ReportCpuStart(j)
        ] + memory[LocalCell::ReportDuration(j)] - memory[LocalCell::ReportCpuStart(i)] by {
            assert(took_part(memory, batch_id, i as int) && took_part(memory, batch_id, j as int));
            assert(start <= work_start(memory, i as int) && work_end(memory, j as int) <= end);
        }
    }
}

/// A report of another batch is passed over, and so is one without work. A report
/// of work widens the time span to its own start and end, and the scan goes on
/// with the next of the 32 reports. Only an end that no clock can show stops it.
pub proof fn law_report_widens_span(scan: ReportScan, batch: u64, start: u64, duration: u64)
    requires
        scan.phase is ReadBatch,
        scan.index < 32,
    ensures
        ({
            let matched = scan.next(batch);
            let after = matched.next(start).next(duration);
            let beyond = if scan.index < 31 {
                ReportScan { index: (scan.index + 1) as usize, ..scan }
            } else {
                ReportScan { phase: ReportPhase::Finished, ..scan }
            };
            if batch != scan.batch_id {
                matched == beyond
            } else if duration == 0 {
                after == beyond
            } else if start + duration > 0xFFFF_FFFF_FFFF_FFFF {
                after.asks() is Overflow
            } else {
                &&& after.any
                &&& after.earliest <= start && after.earliest <= scan.earliest
                &&& after.earliest == start || after.earliest == scan.earliest
                &&& after.latest >= start + duration && after.latest >= scan.latest
                &&& after.latest == start + duration || after.latest == scan.latest
                &&& after.index == beyond.index && after.phase == beyond.phase
                &&& after.tokens == scan.tokens && after.batch_id == scan.batch_id
            }
        }),
{
}

/// A collection starts with the first report and without any work seen, so that the
/// first report of work alone makes the span.
pub proof fn law_first_report_makes_span(
    batch_id: u64,
    tokens: u64,
    start: u64,
    duration: u64,
)
    requires
        duration > 0,
        start + duration <= 0xFFFF_FFFF_FFFF_FFFF,
    ensures
        ({
            let scan = ReportScan::initial(batch_id, tokens);
            let after = scan.next(batch_id).next(start).next(duration);
            &&& scan.index == 0 && scan.batch_id == batch_id && scan.tokens == tokens
            &&& scan.totals() == (0u64, 0u64)
            &&& after.earliest == start
            &&& after.latest == start + duration
            &&& after.totals() == (duration, tokens)
        }),
{
}

} // verus!
