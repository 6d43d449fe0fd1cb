//! Resting between batches, so that a fixed share is kept.

use vstd::prelude::*;

use crate::access::{Access, Step};
use crate::manager::slot::ContainerManager;
use crate::manager::{Heartbeat, ManagerAction};
use crate::shmem::GlobalCell;

verus! {

/// Nanoseconds between two heartbeats of a manager that waits.
pub const HEARTBEAT_INTERVAL_NS: u64 = 100_000_000;

/// Nanoseconds that a resting manager sleeps at most.
pub const REST_SLICE_NS: u64 = 2_000_000;

/// Where a [`RestWait`] stands. A number is the time at which the wait last
/// looked at the clock for its deadline.
#[derive(Debug, Clone, Copy, PartialEq, Eq, Structural)]
pub enum RestPhase {
    FirstLook,
    MarkBeat,
    Look,
    CheckBeat(u64),
    Beat(u64, Heartbeat),
    RemarkBeat(u64),
    Sleep(u64),
    Rested,
}

/// Waits until a deadline, with a heartbeat now and then.
#[derive(Debug, Clone, Copy, PartialEq, Eq, Structural)]
pub struct RestWait {
    pub manager: usize,
    pub deadline: u128,
    /// When the last heartbeat was.
    pub last_beat: u64,
    pub phase: RestPhase,
}

/// How long ago a moment was, or 0 where it lies ahead.
pub open spec fn elapsed(now: u64, since: u64) -> int {
    if now > since {
        now - since
    } else {
        0
    }
}

/// How long to sleep before a deadline.
pub open spec fn rest_slice(deadline: u128, now: u64) -> u64 {
    if deadline <= now {
        0
    } else if deadline - now < REST_SLICE_NS {
        (deadline - now) as u64
    } else {
        REST_SLICE_NS
    }
}

impl RestWait {
    /// The wait in another phase.
    pub open spec fn at(self, phase: RestPhase) -> RestWait {
        RestWait { phase, ..self }
    }

    /// What the wait asks for.
    pub open spec fn asks(self) -> Step<ManagerAction, ()> {
        match self.phase {
            RestPhase::FirstLook => Step::Do(ManagerAction::Monotonic),
            RestPhase::MarkBeat => Step::Do(ManagerAction::Monotonic),
            RestPhase::Look => Step::Do(ManagerAction::Monotonic),
            RestPhase::CheckBeat(_) => Step::Do(ManagerAction::Monotonic),
            RestPhase::Beat(now, beat) => match beat.asks(self.manager) {
                Step::Do(action) => Step::Do(action),
                _ => Step::Do(ManagerAction::Sleep(rest_slice(self.deadline, now))),
            },
            RestPhase::RemarkBeat(_) => Step::Do(ManagerAction::Monotonic),
            RestPhase::Sleep(now) => Step::Do(
                ManagerAction::Sleep(rest_slice(self.deadline, now)),
            ),
            RestPhase::Rested => Step::Done(()),
        }
    }

    /// The wait once it has the reply to what it asked.
    pub open spec fn next(self, reply: u64) -> RestWait {
        match self.phase {
            RestPhase::FirstLook => if reply >= self.deadline {
                self.at(RestPhase::Rested)
            } else {
                self.at(RestPhase::MarkBeat)
            },
            RestPhase::MarkBeat => RestWait { last_beat: reply, ..self }.at(RestPhase::Look),
            RestPhase::Look => if reply >= self.deadline {
                self.at(RestPhase::Rested)
            } else {
                self.at(RestPhase::CheckBeat(reply))
            },
            RestPhase::CheckBeat(now) => if elapsed(reply, self.last_beat)
                > HEARTBEAT_INTERVAL_NS {
                self.at(RestPhase::Beat(now, Heartbeat::ReadForTurn))
            } else {
                self.at(RestPhase::Sleep(now))
            },
            RestPhase::Beat(now, beat) => match beat.next(reply) {
                Heartbeat::Finished => self.at(RestPhase::RemarkBeat(now)),
                further => self.at(RestPhase::Beat(now, further)),
            },
            RestPhase::RemarkBeat(now) => RestWait { last_beat: reply, ..self }.at(
                RestPhase::Sleep(now),
            ),
            RestPhase::Sleep(_) => self.at(RestPhase::Look),
            RestPhase::Rested => self,
        }
    }

    fn slice(&self, now: u64) -> (ns: u64)
        ensures
            ns == rest_slice(self.deadline, now),
    {
        if self.deadline <= now as u128 {
            0
        } else {
            let left: u128 = self.deadline - now as u128;
            if left < REST_SLICE_NS as u128 {
                left as u64
            } else {
                REST_SLICE_NS
            }
        }
    }

    /// Tells what to do next.
    pub fn step(&self) -> (step: Step<ManagerAction, ()>)
        ensures
            step == self.asks(),
    {
        match &self.phase {
            RestPhase::FirstLook | RestPhase::MarkBeat | RestPhase::Look => Step::Do(
                ManagerAction::Monotonic,
            ),
            RestPhase::CheckBeat(_) => Step::Do(ManagerAction::Monotonic),
            RestPhase::Beat(now, beat) => match beat.step(self.manager) {
                Step::Do(action) => Step::Do(action),
                _ => Step::Do(ManagerAction::Sleep(self.slice(*now))),
            },
            RestPhase::RemarkBeat(_) => Step::Do(ManagerAction::Monotonic),
            RestPhase::Sleep(now) => Step::Do(ManagerAction::Sleep(self.slice(*now))),
            RestPhase::Rested => Step::Done(()),
        }
    }

    /// Takes the reply to what was asked.
    pub fn advance(&mut self, reply: u64)
        ensures
            *final(self) == old(self).next(reply),
    {
        match self.phase {
            RestPhase::FirstLook => {
                if reply as u128 >= self.deadline {
                    self.phase = RestPhase::Rested;
                } else {
                    self.phase = RestPhase::MarkBeat;
                }
            },
            RestPhase::MarkBeat => {
                self.last_beat = reply;
                self.phase = RestPhase::Look;
            },
            RestPhase::Look => {
                if reply as u128 >= self.deadline {
                    self.phase = RestPhase::Rested;
                } else {
                    self.phase = RestPhase::CheckBeat(reply);
                }
            },
            RestPhase::CheckBeat(now) => {
                if reply > self.last_beat && reply - self.last_beat > HEARTBEAT_INTERVAL_NS {
                    self.phase = RestPhase::Beat(now, Heartbeat::start());
                } else {
                    self.phase = RestPhase::Sleep(now);
                }
            },
            RestPhase::Beat(now, beat) => {
                let mut further = beat;
                further.advance(reply);
                self.phase = match further {
                    Heartbeat::Finished => RestPhase::RemarkBeat(now),
                    _ => RestPhase::Beat(now, further),
                };
            },
            RestPhase::RemarkBeat(now) => {
                self.last_beat = reply;
                self.phase = RestPhase::Sleep(now);
            },
            RestPhase::Sleep(_) => {
                self.phase = RestPhase::Look;
            },
            RestPhase::Rested => {},
        }
    }
}

impl ContainerManager {
    /// Starts to wait until the rest after the last batch is over. Only fixed
    /// shares rest. The rest is taken once.
    pub fn honor_fixed_rest_wait(&mut self) -> (wait: RestWait)
        ensures
            wait.manager == old(self).my_global_idx,
            wait.last_beat == 0,
            if old(self).fixed_share_ratio && old(self).next_run_not_before is Some {
                &&& wait.phase is FirstLook
                &&& wait.deadline == old(self).next_run_not_before->0
            } else {
                &&& wait.phase is Rested
                &&& wait.deadline == 0
            },
            *final(self) == if old(self).fixed_share_ratio {
                ContainerManager { next_run_not_before: None, ..*old(self) }
            } else {
                *old(self)
            },
            wait == old(self).due_wait(),
    {
        let manager: usize = self.my_global_idx;
        if self.fixed_share_ratio {
            match self.next_run_not_before {
                Some(deadline) => {
                    self.next_run_not_before = None;
                    return RestWait {
                        manager,
                        deadline,
                        last_beat: 0,
                        phase: RestPhase::FirstLook,
                    };
                },
                None => {},
            }
        }
        RestWait { manager, deadline: 0, last_beat: 0, phase: RestPhase::Rested }
    }

    /// Notes how long to rest from now on. Only fixed shares rest.
    pub fn schedule_rest_wait(&mut self, rest_wait_us: u64, now: u64)
        ensures
            *final(self) == (ContainerManager {
                next_run_not_before: if old(self).fixed_share_ratio && rest_wait_us > 0 {
                    Some((now + rest_wait_us * 1000) as u128)
                } else {
                    None
                },
                ..*old(self)
            }),
            *final(self) == old(self).with_rest(rest_wait_us, now),
    {
        if !self.fixed_share_ratio || rest_wait_us == 0 {
            self.next_run_not_before = None;
            return ;
        }
        self.next_run_not_before = Some(now as u128 + rest_wait_us as u128 * 1000);
    }
}

impl RestWait {
    /// The wait after a sequence of replies.
    pub open spec fn after(self, replies: Seq<u64>) -> RestWait
        decreases replies.len(),
    {
        if replies.len() == 0 {
            self
        } else {
            self.after(replies.drop_last()).next(replies.last())
        }
    }

    /// Whether one of the replies is what the monotonic clock shows, at or past
    /// the deadline.
    pub open spec fn sees_deadline(self, replies: Seq<u64>, i: int) -> bool {
        &&& 0 <= i < replies.len()
        &&& replies[i] >= self.deadline
        &&& self.after(replies.take(i)).asks() == Step::<ManagerAction, ()>::Do(
            ManagerAction::Monotonic,
        )
    }
}

/// Whatever the clock shows, a rest is over only once the monotonic clock has been
/// seen at or past the deadline, and every sleep of it ends no later than the deadline.
pub proof fn law_rest_lasts_until_deadline(start: RestWait, replies: Seq<u64>)
    requires
        start.phase is FirstLook,
    ensures
        start.after(replies).deadline == start.deadline,
        start.after(replies).phase is Rested ==> exists|i: int|
            #[trigger] start.sees_deadline(replies, i),
        start.after(replies).phase matches RestPhase::Sleep(now) ==> now + rest_slice(
            start.deadline,
            now,
        ) <= start.deadline,
        start.after(replies).phase matches RestPhase::CheckBeat(now) ==> now < start.deadline,
        start.after(replies).phase matches RestPhase::Beat(now, _) ==> now < start.deadline,
        start.after(replies).phase matches RestPhase::RemarkBeat(now) ==> now < start.deadline,
    decreases replies.len(),
{
    if replies.len() > 0 {
        let few = replies.drop_last();
        law_rest_lasts_until_deadline(start, few);
        let end = start.after(replies);
        if end.phase is Rested {
            if start.after(few).phase is Rested {
                let i = choose|i: int| #[trigger] start.sees_deadline(few, i);
                assert(few.take(i) =~= replies.take(i));
                assert(start.sees_deadline(replies, i));
            } else {
                assert(replies.take(replies.len() - 1) =~= few);
                assert(start.sees_deadline(replies, replies.len() - 1));
            }
        }
    }
}

impl ContainerManager {
    /// The manager once it has noted how long to rest.
    pub open spec fn with_rest(self, rest_wait_us: u64, now: u64) -> ContainerManager {
        ContainerManager {
            next_run_not_before: if self.fixed_share_ratio && rest_wait_us > 0 {
                Some((now + rest_wait_us * 1000) as u128)
            } else {
                None
            },
            ..self
        }
    }

    /// The wait that the manager starts before its next batch.
    pub open spec fn due_wait(self) -> RestWait {
        match self.next_run_not_before {
            Some(deadline) if self.fixed_share_ratio => RestWait {
                manager: self.my_global_idx,
                deadline,
                last_beat: 0,
                phase: RestPhase::FirstLook,
            },
            _ => RestWait {
                manager: self.my_global_idx,
                deadline: 0,
                last_beat: 0,
                phase: RestPhase::Rested,
            },
        }
    }
}

/// A fixed share that is to rest is held back until the clock shows a thousand
/// nanoseconds for every microsecond of rest after the moment at which it was
/// told so, and no longer. Nobody else rests.
pub proof fn law_rest_is_honored(
    manager: ContainerManager,
    rest_wait_us: u64,
    now: u64,
    later: u64,
)
    ensures
        ({
            let wait = manager.with_rest(rest_wait_us, now).due_wait();
            if manager.fixed_share_ratio && rest_wait_us > 0 {
                &&& wait.asks() == Step::<ManagerAction, ()>::Do(ManagerAction::Monotonic)
                &&& later >= now + rest_wait_us * 1000 ==> wait.next(later).asks() is Done
                &&& later < now + rest_wait_us * 1000 ==> !(wait.next(later).asks() is Done)
            } else {
                wait.asks() is Done
            }
        }),
        manager.with_rest(rest_wait_us, now).my_global_idx == manager.my_global_idx,
        manager.with_rest(rest_wait_us, now).current_avg_us == manager.current_avg_us,
        manager.with_rest(rest_wait_us, now).my_pid == manager.my_pid,
        manager.with_rest(rest_wait_us, now).fixed_share_ratio == manager.fixed_share_ratio,
        manager.with_rest(rest_wait_us, now).due_wait().manager == manager.my_global_idx,
{
    assert(now + rest_wait_us * 1000 < 0x1_0000_0000_0000_0000_0000_0000_0000);
}

/// A look at the clock at or past the deadline ends the rest. Before it, the
/// manager sleeps for what is left, 2 milliseconds at most, and looks again; if its
/// last heartbeat is more than 100 milliseconds ago, it first shows itself and
/// notes when.
pub proof fn law_rest_goes_in_slices(
    wait: RestWait,
    now: u64,
    check: u64,
    turn: u64,
    slot: u64,
    mark: u64,
)
    requires
        wait.phase is Look,
        check >= wait.last_beat,
    ensures
        wait.asks() == Step::<ManagerAction, ()>::Do(ManagerAction::Monotonic),
        now >= wait.deadline ==> wait.next(now).asks() is Done,
        now < wait.deadline ==> {
            let left = wait.deadline - now;
            let nap = if left < 2_000_000 {
                left
            } else {
                2_000_000
            };
            let checked = wait.next(now).next(check);
            let sleeping = if check - wait.last_beat > 100_000_000 {
                checked.next(turn).next(0).next(slot).next(0).next(mark)
            } else {
                checked
            };
            &&& wait.next(now).asks() == Step::<ManagerAction, ()>::Do(ManagerAction::Monotonic)
            &&& sleeping.asks() == Step::<ManagerAction, ()>::Do(ManagerAction::Sleep(nap as u64))
            &&& sleeping.next(0) == (RestWait { last_beat: sleeping.last_beat, ..wait })
            &&& check - wait.last_beat <= 100_000_000 ==> sleeping.last_beat == wait.last_beat
            &&& check - wait.last_beat > 100_000_000 ==> {
                let clock = Step::<ManagerAction, ()>::Do(ManagerAction::WallClock);
                &&& sleeping.last_beat == mark
                &&& checked.asks() == clock
                &&& checked.next(turn).asks() == Step::<ManagerAction, ()>::Do(
                    ManagerAction::Global(Access::Store(GlobalCell::LockTimestamp, turn)),
                )
                &&& checked.next(turn).next(0).asks() == clock
                &&& checked.next(turn).next(0).next(slot).asks() == Step::<ManagerAction, ()>::Do(
                    ManagerAction::Global(
                        Access::Store(GlobalCell::SlotHeartbeat(wait.manager), slot),
                    ),
                )
            }
        },
{
}

/// A rest whose deadline is not over yet at its first look notes the time for its
/// heartbeats, and then goes in slices.
pub proof fn law_rest_starts(wait: RestWait, now: u64, mark: u64)
    requires
        wait.phase is FirstLook,
        now < wait.deadline,
    ensures
        wait.next(now).asks() == Step::<ManagerAction, ()>::Do(ManagerAction::Monotonic),
        wait.next(now).next(mark) == (RestWait { phase: RestPhase::Look, last_beat: mark, ..wait }),
{
}

/// A wait never sleeps past its deadline: once that is over it sleeps for nothing.
pub proof fn law_no_sleep_past_deadline(wait: RestWait, now: u64)
    requires
        wait.phase == RestPhase::Sleep(now),
    ensures
        now >= wait.deadline ==> wait.asks() == Step::<ManagerAction, ()>::Do(
            ManagerAction::Sleep(0),
        ),
        now < wait.deadline ==> (wait.asks() matches Step::Do(ManagerAction::Sleep(ns)) && 0 < ns
            && now + ns <= wait.deadline),
{
}

} // verus!
