use limiter::access::{Access, Step};
use limiter::manager::baton::{BatonPass, QueueJoin};
use limiter::manager::rest::RestPhase;
use limiter::manager::slot::ContainerManager;
use limiter::manager::turn::{TurnPhase, TurnWait};
use limiter::manager::{Heartbeat, ManagerAction};
use limiter::shmem::{GlobalCell, GlobalRegistry};

/// Runs a wait until it has the turn or sleeps.
fn drive_turn(wait: &mut TurnWait, registry: &mut GlobalRegistry, now: u64) -> Option<ManagerAction> {
    loop {
        match wait.step() {
            Step::Do(ManagerAction::Global(access)) => {
                let reply = registry.perform(access);
                wait.advance(reply);
            }
            Step::Do(ManagerAction::WallClock) => wait.advance(now),
            Step::Do(other) => return Some(other),
            Step::Done(()) => return None,
            Step::Overflow => panic!("a wait does not count"),
        }
    }
}

fn active(registry: &mut GlobalRegistry, slots: &[usize]) {
    for slot in slots {
        registry.slots[*slot].is_active = 1;
    }
}

#[test]
fn the_owner_has_the_turn() {
    let manager = ContainerManager::with_slot(3, 1, false);
    let mut registry = GlobalRegistry::zeroed();
    registry.lock_owner = 3;
    let mut wait = manager.wait_for_global_turn();
    assert_eq!(drive_turn(&mut wait, &mut registry, 10), None);
    assert_eq!(registry.lock_timestamp, 0);
}

#[test]
fn a_live_owner_keeps_the_turn() {
    let manager = ContainerManager::with_slot(3, 1, false);
    let mut registry = GlobalRegistry::zeroed();
    active(&mut registry, &[0, 3]);
    registry.lock_timestamp = 1_000;
    registry.signal_counter = 12;
    let mut wait = manager.wait_for_global_turn();
    let rest = drive_turn(&mut wait, &mut registry, 1_001_000);
    assert_eq!(rest, Some(ManagerAction::WaitGlobal(12, 1_000)));
    assert_eq!(registry.lock_owner, 0);
}

#[test]
fn a_silent_owner_is_evicted() {
    let manager = ContainerManager::with_slot(3, 1, false);
    let mut registry = GlobalRegistry::zeroed();
    active(&mut registry, &[0, 3]);
    registry.lock_timestamp = 1_000;
    let mut wait = manager.wait_for_global_turn();
    assert_eq!(drive_turn(&mut wait, &mut registry, 1_001_001), None);
    assert_eq!(registry.lock_owner, 3);
    assert_eq!(registry.slots[0].is_active, 0);
    assert_eq!(registry.lock_timestamp, 1_001_001);
    assert_eq!(registry.slots[3].last_heartbeat, 1_001_001);
}

#[test]
fn an_owner_that_has_gone_loses_the_turn_at_once() {
    let manager = ContainerManager::with_slot(3, 1, false);
    let mut registry = GlobalRegistry::zeroed();
    registry.lock_timestamp = 1_000;
    let mut wait = manager.wait_for_global_turn();
    assert_eq!(drive_turn(&mut wait, &mut registry, 1_000), None);
    assert_eq!(registry.lock_owner, 3);
}

#[test]
fn an_owner_that_does_not_exist_loses_the_turn_at_once() {
    let manager = ContainerManager::with_slot(3, 1, false);
    let mut registry = GlobalRegistry::zeroed();
    registry.lock_owner = u32::MAX;
    let mut wait = manager.wait_for_global_turn();
    assert_eq!(drive_turn(&mut wait, &mut registry, 1_000), None);
    assert_eq!(registry.lock_owner, 3);
}

#[test]
fn a_manager_that_loses_the_race_has_no_turn() {
    let mut wait = TurnWait { manager: 3, phase: TurnPhase::ReadOwner };
    wait.advance(80);
    let claim = Access::CompareExchange(GlobalCell::LockOwner, 80, 3);
    assert_eq!(wait.step(), Step::Do(ManagerAction::Global(claim)));
    wait.advance(5);
    assert_eq!(
        wait.step(),
        Step::Do(ManagerAction::Global(Access::Load(GlobalCell::LockTimestamp))),
    );
}

#[test]
fn a_heartbeat_shows_the_time_twice() {
    let mut beat = Heartbeat::start();
    let mut seen: Vec<ManagerAction> = Vec::new();
    let mut now = 40;
    while let Step::Do(action) = beat.step(6) {
        seen.push(action);
        now += 1;
        beat.advance(now);
    }
    assert_eq!(
        seen,
        vec![
            ManagerAction::WallClock,
            ManagerAction::Global(Access::Store(GlobalCell::LockTimestamp, 41)),
            ManagerAction::WallClock,
            ManagerAction::Global(Access::Store(GlobalCell::SlotHeartbeat(6), 43)),
        ],
    );
    assert_eq!(beat, Heartbeat::Finished);
}

#[test]
fn a_heartbeat_goes_to_the_turn_and_to_the_slot() {
    let manager = ContainerManager::with_slot(6, 1, false);
    let mut registry = GlobalRegistry::zeroed();
    registry.lock_owner = 6;
    manager.update_heartbeat(&mut registry, 41, 43);
    assert_eq!(registry.lock_timestamp, 41);
    assert_eq!(registry.slots[6].last_heartbeat, 43);
    assert_eq!((registry.lock_owner, registry.slots[5].last_heartbeat), (6, 0));
}

#[test]
fn joining_the_queue_takes_the_next_place() {
    let manager = ContainerManager::with_slot(7, 1, false);
    let mut registry = GlobalRegistry::zeroed();
    registry.queue_tail = 65;
    manager.join_global_queue(&mut registry);
    assert_eq!(registry.queue_tail, 66);
    assert_eq!(registry.queue[1], 7);
}

#[test]
fn the_tail_of_the_queue_wraps() {
    let manager = ContainerManager::with_slot(7, 1, false);
    let mut registry = GlobalRegistry::zeroed();
    registry.queue_tail = u32::MAX;
    manager.join_global_queue(&mut registry);
    assert_eq!(registry.queue_tail, 0);
    assert_eq!(registry.queue[63], 7);
}

#[test]
fn the_next_in_the_queue_gets_the_turn() {
    let manager = ContainerManager::with_slot(0, 1, false);
    let mut registry = GlobalRegistry::zeroed();
    active(&mut registry, &[0, 4]);
    registry.queue[0] = 0;
    registry.queue[1] = 4;
    registry.queue_tail = 2;
    manager.pass_baton(&mut registry);
    assert_eq!(registry.lock_owner, 4);
    assert_eq!(registry.queue_head, 1);
    assert_eq!(registry.queue_tail, 3);
    assert_eq!(registry.queue[2], 0);
    assert_eq!(registry.signal_counter, 1);
}

#[test]
fn places_of_managers_that_have_gone_are_skipped() {
    let manager = ContainerManager::with_slot(0, 1, false);
    let mut registry = GlobalRegistry::zeroed();
    active(&mut registry, &[0, 5]);
    registry.queue[1] = 4;
    registry.queue[2] = 99;
    registry.queue[3] = 5;
    registry.queue_tail = 4;
    manager.pass_baton(&mut registry);
    assert_eq!(registry.lock_owner, 5);
    assert_eq!(registry.queue_head, 3);
}

#[test]
fn a_manager_alone_gets_the_turn_back() {
    let manager = ContainerManager::with_slot(2, 1, false);
    let mut registry = GlobalRegistry::zeroed();
    active(&mut registry, &[2]);
    registry.queue_tail = 1;
    registry.queue[0] = 2;
    manager.pass_baton(&mut registry);
    assert_eq!(registry.lock_owner, 2);
    assert_eq!(registry.queue_head, 1);
}

#[test]
fn two_managers_take_turns() {
    let managers = [ContainerManager::with_slot(0, 1, false), ContainerManager::with_slot(1, 2, false)];
    let mut registry = GlobalRegistry::zeroed();
    active(&mut registry, &[0, 1]);
    for manager in &managers {
        manager.join_global_queue(&mut registry);
    }
    let mut owners: Vec<u32> = Vec::new();
    for _ in 0..200 {
        let owner = registry.lock_owner;
        owners.push(owner);
        managers[owner as usize].pass_baton(&mut registry);
    }
    for (i, owner) in owners.iter().enumerate() {
        assert_eq!(*owner as usize, i % 2);
    }
}

#[test]
fn five_managers_go_round() {
    let order = [7, 0, 63, 12, 5];
    let mut registry = GlobalRegistry::zeroed();
    active(&mut registry, &order);
    for slot in order {
        ContainerManager::with_slot(slot, 1, false).join_global_queue(&mut registry);
    }
    registry.lock_owner = 7;
    for turn in 0..333 {
        assert_eq!(registry.lock_owner as usize, order[turn % 5]);
        let owner = ContainerManager::with_slot(registry.lock_owner as usize, 1, false);
        owner.pass_baton(&mut registry);
    }
}

#[test]
fn an_owner_that_refreshes_its_stamp_is_not_displaced() {
    let manager = ContainerManager::with_slot(3, 1, false);
    let mut registry = GlobalRegistry::zeroed();
    active(&mut registry, &[0, 3]);
    let mut wait = manager.wait_for_global_turn();
    let mut now: u64 = 5_000_000;
    for _ in 0..50 {
        now += 900_000;
        registry.lock_timestamp = now;
        let rest = drive_turn(&mut wait, &mut registry, now + 900_000);
        assert!(matches!(rest, Some(ManagerAction::WaitGlobal(_, _))));
        wait.advance(0);
    }
    assert_eq!((registry.lock_owner, registry.slots[0].is_active), (0, 1));
}

#[test]
fn waiters_are_woken_after_the_turn_is_handed_on() {
    let mut pass = BatonPass::start(0);
    let mut last = None;
    let mut registry = GlobalRegistry::zeroed();
    active(&mut registry, &[0]);
    while let Step::Do(action) = pass.step() {
        last = Some(action);
        match action {
            ManagerAction::Global(access) => {
                let reply = registry.perform(access);
                pass.advance(reply);
            }
            _ => pass.advance(0),
        }
    }
    assert_eq!(last, Some(ManagerAction::WakeGlobal));
    assert_eq!(QueueJoin::Finished.step(0), Step::Done(()));
}

#[test]
fn only_fixed_shares_rest() {
    let mut manager = ContainerManager::with_slot(0, 1, false);
    manager.schedule_rest_wait(500, 1_000);
    assert_eq!(manager.next_run_not_before, None);
    let wait = manager.honor_fixed_rest_wait();
    assert_eq!(wait.step(), Step::Done(()));
}

#[test]
fn a_fixed_share_rests_until_its_deadline() {
    let mut manager = ContainerManager::with_slot(0, 1, true);
    manager.schedule_rest_wait(5_000, 1_000);
    assert_eq!(manager.next_run_not_before, Some(5_001_000));
    let mut wait = manager.honor_fixed_rest_wait();
    assert_eq!(manager.next_run_not_before, None);
    let mut now: u64 = 1_000;
    let mut slept: Vec<u64> = Vec::new();
    loop {
        match wait.step() {
            Step::Do(ManagerAction::Monotonic) => wait.advance(now),
            Step::Do(ManagerAction::Sleep(ns)) => {
                slept.push(ns);
                now += ns;
                wait.advance(0);
            }
            Step::Do(_) => panic!("no heartbeat is due"),
            Step::Done(()) => break,
            Step::Overflow => panic!("a rest does not count"),
        }
    }
    assert_eq!(slept, vec![2_000_000, 2_000_000, 1_000_000]);
    assert_eq!(now, 5_001_000);
}

#[test]
fn a_long_rest_shows_heartbeats() {
    let mut manager = ContainerManager::with_slot(2, 1, true);
    manager.schedule_rest_wait(250_000, 0);
    let mut wait = manager.honor_fixed_rest_wait();
    let mut now: u64 = 0;
    let mut beats = 0;
    loop {
        match wait.step() {
            Step::Do(ManagerAction::Monotonic) => wait.advance(now),
            Step::Do(ManagerAction::Sleep(ns)) => {
                now += ns;
                wait.advance(0);
            }
            Step::Do(ManagerAction::Global(Access::Store(GlobalCell::SlotHeartbeat(2), _))) => {
                beats += 1;
                wait.advance(0);
            }
            Step::Do(_) => wait.advance(0),
            _ => break,
        }
    }
    assert_eq!(wait.phase, RestPhase::Rested);
    assert_eq!(now, 250_000_000);
    assert_eq!(beats, 2);
}

#[test]
fn no_rest_is_scheduled_for_zero() {
    let mut manager = ContainerManager::with_slot(0, 1, true);
    manager.next_run_not_before = Some(9);
    manager.schedule_rest_wait(0, 1_000);
    assert_eq!(manager.next_run_not_before, None);
}
