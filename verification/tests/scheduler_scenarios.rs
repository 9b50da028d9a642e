//! Scenarios of the scheduler thread, played on its timetable with ticks in
//! milliseconds.
use mio_misc::scheduler::SchedulerStatus;
use mio_misc::timetable::{Step, TimedEntry, Timetable};
use std::collections::HashMap;

/// Drives the timetable from `from` to `until` the way the scheduler thread
/// does, counting the runs of each id; returns the status at `until`.
fn drive(t: &mut Timetable<()>, from: u128, until: u128, runs: &mut HashMap<u32, u32>) -> SchedulerStatus {
    let mut now = from;
    loop {
        let step = t.step(now);
        let status = SchedulerStatus::during(&step);
        match step {
            Step::Run(e) => {
                *runs.entry(e.id).or_insert(0) += 1;
                t.reschedule(e, now);
            }
            Step::Cancelled(_) => {}
            Step::Wait(d) => {
                if now + d > until {
                    return status;
                }
                now += d;
            }
            Step::Idle => return status,
        }
    }
}

#[test]
fn one_time_entries_scenario() {
    let mut t = Timetable::new();
    let mut runs = HashMap::new();
    assert_eq!(drive(&mut t, 0, 0, &mut runs), SchedulerStatus::Parked);
    t.schedule(TimedEntry { start: 20, id: 1, interval: None, payload: () });
    assert_eq!(drive(&mut t, 0, 90, &mut runs), SchedulerStatus::Parked);
    assert_eq!(runs[&1], 1);
    t.schedule(TimedEntry { start: 90 + 200, id: 2, interval: None, payload: () });
    assert_eq!(drive(&mut t, 90, 190, &mut runs), SchedulerStatus::ParkedTimeout);
    assert_eq!(drive(&mut t, 190, 330, &mut runs), SchedulerStatus::Parked);
    assert_eq!(runs[&2], 1);
}

#[test]
fn fixed_interval_cancel_scenario() {
    let mut t = Timetable::new();
    let mut runs = HashMap::new();
    t.schedule(TimedEntry { start: 200, id: 1, interval: Some(500), payload: () });
    t.cancel(1);
    t.schedule(TimedEntry { start: 200, id: 2, interval: Some(800), payload: () });
    assert_eq!(drive(&mut t, 0, 50, &mut runs), SchedulerStatus::ParkedTimeout);
    t.cancel(2);
    assert_eq!(drive(&mut t, 50, 450, &mut runs), SchedulerStatus::Parked);
    assert!(runs.is_empty());
    assert_eq!(t.entry_count(), 0);
}

#[test]
fn cancelling_half_of_many_entries_scenario() {
    let mut t = Timetable::new();
    let mut runs = HashMap::new();
    let mut seed: u64 = 42;
    for id in 1..=50u32 {
        seed = seed.wrapping_mul(6364136223846793005).wrapping_add(1442695040888963407);
        let interval = 1 + (seed >> 33) as u128 % 100;
        assert!(t.schedule(TimedEntry { start: 0, id, interval: Some(interval), payload: () }));
    }
    drive(&mut t, 0, 10_000, &mut runs);
    assert_eq!(t.entry_count(), 50);
    assert!((1..=50).all(|id| runs.get(&id).copied().unwrap_or(0) > 0));
    for id in 26..=50u32 {
        t.cancel(id);
    }
    drive(&mut t, 10_000, 15_000, &mut runs);
    runs.clear();
    drive(&mut t, 15_000, 25_000, &mut runs);
    assert_eq!(t.entry_count(), 25);
    assert!((1..=25).all(|id| runs.get(&id).copied().unwrap_or(0) > 0));
    assert!((26..=50).all(|id| !runs.contains_key(&id)));
}
