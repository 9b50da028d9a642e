use mio_misc::scheduler::SchedulerStatus;
use mio_misc::timetable::{due_tick, split_ticks, tick_at, Step, TimedEntry, Timetable, BASE_TICK};

fn entry(start: u128, id: u32, interval: Option<u128>) -> TimedEntry<&'static str> {
    TimedEntry { start, id, interval, payload: "callback" }
}

fn run_id(step: &Step<&'static str>) -> Option<u32> {
    match step {
        Step::Run(e) => Some(e.id),
        _ => None,
    }
}

#[test]
fn empty_timetable_idles() {
    let mut t: Timetable<&'static str> = Timetable::new();
    let step = t.step(0);
    assert!(matches!(step, Step::Idle));
    assert_eq!(SchedulerStatus::during(&step), SchedulerStatus::Parked);
    assert_eq!(t.entry_count(), 0);
    assert_eq!(t.len(), 0);
}

#[test]
fn waits_until_earliest_entry_is_due() {
    let mut t = Timetable::new();
    assert!(t.schedule(entry(500, 1, None)));
    assert!(t.schedule(entry(200, 2, None)));
    let step = t.step(50);
    assert!(matches!(step, Step::Wait(150)));
    assert_eq!(SchedulerStatus::during(&step), SchedulerStatus::ParkedTimeout);
    assert_eq!(t.len(), 2);
}

#[test]
fn entries_run_in_order_of_start_then_id() {
    let mut t = Timetable::new();
    assert!(t.schedule(entry(30, 7, None)));
    assert!(t.schedule(entry(10, 9, None)));
    assert!(t.schedule(entry(10, 3, None)));
    assert!(t.schedule(entry(20, 1, None)));
    let mut order = Vec::new();
    for _ in 0..4 {
        let step = t.step(100);
        assert_eq!(SchedulerStatus::during(&step), SchedulerStatus::Active);
        order.push(run_id(&step).unwrap());
    }
    assert_eq!(order, vec![3, 9, 1, 7]);
    assert!(matches!(t.step(100), Step::Idle));
}

#[test]
fn scheduling_the_same_start_and_id_twice_counts_once() {
    let mut t = Timetable::new();
    assert!(t.schedule(entry(10, 1, None)));
    assert!(!t.schedule(entry(10, 1, Some(5))));
    assert_eq!(t.entry_count(), 1);
    assert_eq!(t.len(), 1);
    assert!(t.schedule(entry(11, 1, None)));
    assert_eq!(t.entry_count(), 2);
}

#[test]
fn one_time_entry_runs_once() {
    let mut t = Timetable::new();
    t.schedule(entry(20, 4, None));
    assert!(matches!(t.step(10), Step::Wait(10)));
    let step = t.step(20);
    let e = match step {
        Step::Run(e) => e,
        _ => panic!("the entry is due"),
    };
    assert_eq!(e.id, 4);
    assert_eq!(t.entry_count(), 1);
    t.reschedule(e, 25);
    assert_eq!(t.len(), 0);
    assert!(matches!(t.step(1_000), Step::Idle));
    // a one-time entry that ran is no longer current
    assert_eq!(t.entry_count(), 0);
}

#[test]
fn repeating_entry_is_rearmed_after_its_interval() {
    let mut t = Timetable::new();
    t.schedule(entry(0, 1, Some(2_000_000)));
    let mut runs = 0;
    let mut now: u128 = 0;
    for _ in 0..5 {
        match t.step(now) {
            Step::Run(e) => {
                runs += 1;
                t.reschedule(e, now + 1);
            }
            Step::Wait(d) => now += d,
            _ => panic!("a repeating entry is never dropped"),
        }
    }
    assert!(runs >= 2);
    assert_eq!(t.len(), 1);
    assert_eq!(t.entry_count(), 1);
    // the run at tick 0 handed back at tick 1 is due again at 2_000_001
    let mut t2 = Timetable::new();
    t2.schedule(entry(0, 1, Some(2_000_000)));
    let e = match t2.step(0) {
        Step::Run(e) => e,
        _ => panic!("due at once"),
    };
    t2.reschedule(e, 1);
    assert!(matches!(t2.step(1), Step::Wait(2_000_000)));
}

#[test]
fn cancel_before_due_prevents_the_run() {
    let mut t = Timetable::new();
    t.schedule(entry(70, 1, None));
    t.cancel(1);
    assert!(matches!(t.step(10), Step::Wait(60)));
    let step = t.step(70);
    assert!(matches!(step, Step::Cancelled(1)));
    assert_eq!(SchedulerStatus::during(&step), SchedulerStatus::Active);
    assert_eq!(t.entry_count(), 0);
    assert!(matches!(t.step(1_000), Step::Idle));
}

#[test]
fn cancelling_a_repeating_entry_stops_it() {
    let mut t = Timetable::new();
    t.schedule(entry(0, 1, Some(10)));
    t.schedule(entry(5, 2, Some(10)));
    let e = match t.step(0) {
        Step::Run(e) => e,
        _ => panic!("due at once"),
    };
    t.reschedule(e, 0);
    t.cancel(1);
    let mut ran = Vec::new();
    let mut now = 0;
    for _ in 0..10 {
        match t.step(now) {
            Step::Run(e) => {
                ran.push(e.id);
                t.reschedule(e, now);
            }
            Step::Wait(d) => now += d,
            Step::Cancelled(id) => assert_eq!(id, 1),
            Step::Idle => break,
        }
    }
    assert!(!ran.contains(&1));
    assert!(ran.contains(&2));
    assert_eq!(t.entry_count(), 1);
}

#[test]
fn cancel_after_a_one_time_run_changes_nothing() {
    let mut t = Timetable::new();
    t.schedule(entry(0, 1, None));
    let e = match t.step(0) {
        Step::Run(e) => e,
        _ => panic!("due at once"),
    };
    t.reschedule(e, 0);
    t.cancel(1);
    assert!(matches!(t.step(100), Step::Idle));
    assert_eq!(t.entry_count(), 0);
}

#[test]
fn a_round_applies_cancellations_before_the_new_entry() {
    let mut t = Timetable::new();
    let step = t.round(&vec![5], Some(entry(0, 5, Some(10))), 0);
    assert!(matches!(step, Step::Cancelled(5)));
    assert_eq!(t.entry_count(), 0);
    let step = t.round(&vec![], Some(entry(0, 6, None)), 0);
    assert_eq!(run_id(&step), Some(6));
    let step = t.round(&vec![7, 8], None, 0);
    assert!(matches!(step, Step::Idle));
}

#[test]
fn comes_before_orders_by_start_then_id() {
    assert!(entry(1, 9, None).comes_before(&entry(2, 1, None)));
    assert!(entry(2, 1, None).comes_before(&entry(2, 3, None)));
    assert!(!entry(2, 3, None).comes_before(&entry(2, 3, None)));
    assert!(!entry(3, 0, None).comes_before(&entry(2, 9, None)));
}

#[test]
fn count_wraps_like_an_atomic_counter() {
    let mut t = Timetable::new();
    t.schedule(entry(0, 1, None));
    t.cancel(1);
    assert!(matches!(t.step(0), Step::Cancelled(1)));
    assert_eq!(t.entry_count(), 0);
    t.schedule(entry(0, 2, None));
    t.schedule(entry(0, 3, None));
    t.cancel(2);
    t.cancel(3);
    assert!(matches!(t.step(0), Step::Cancelled(2)));
    assert!(matches!(t.step(0), Step::Cancelled(3)));
    assert_eq!(t.entry_count(), 0);
}

#[test]
fn clock_ticks_and_due_ticks() {
    assert_eq!(tick_at(true, 0), BASE_TICK);
    assert_eq!(tick_at(true, 5), BASE_TICK + 5);
    assert_eq!(tick_at(false, 5), BASE_TICK - 5);
    assert_eq!(tick_at(false, BASE_TICK + 1), 0);
    assert_eq!(tick_at(true, u128::MAX), u128::MAX);
    assert_eq!(due_tick(100, None), 100);
    assert_eq!(due_tick(100, Some(200_000_000)), 200_000_100);
    assert_eq!(due_tick(u128::MAX - 1, Some(5)), u128::MAX);
    assert_eq!(split_ticks(2_500_000_001), (2, 500_000_001));
    assert_eq!(split_ticks(u128::MAX), (u64::MAX, (u128::MAX % 1_000_000_000) as u32));
}
