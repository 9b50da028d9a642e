use mio::{Poll, Token, Waker};
use mio_misc::queue::{NotificationQueue, NotificationReceiver};
use mio_misc::scheduler::{scheduler_thread_name, Notification, ScheduleEntry, ScheduleEntryId};
use std::sync::Arc;
use mio_misc::{IdSequence, NotificationId};
use std::collections::HashSet;
use std::time::{Duration, Instant};

#[test]
fn notification_ids_start_at_one_and_are_unique() {
    let mut ids = IdSequence::new();
    let first = NotificationId::gen_next(&mut ids);
    assert_eq!(first.id(), 1);
    let mut seen = HashSet::new();
    seen.insert(first);
    for _ in 0..1000 {
        assert!(seen.insert(NotificationId::gen_next(&mut ids)));
    }
    assert_eq!(NotificationId::gen_next(&mut ids).id(), 1002);
}

#[test]
fn schedule_entry_ids_follow_their_sequence() {
    let mut ids = IdSequence::new();
    let a = ScheduleEntryId::gen_next(&mut ids);
    let b = ScheduleEntryId::gen_next(&mut ids);
    assert_eq!(a.id(), 1);
    assert_eq!(b.id(), 2);
    assert!(a < b);
}

#[test]
fn with_interval_keeps_what_it_was_given() {
    let mut ids = IdSequence::new();
    let before = Instant::now();
    let entry = ScheduleEntry::with_interval(
        Duration::from_millis(2),
        Some(Duration::from_millis(200)),
        Some("increment-int".to_string()),
        7u32,
        &mut ids,
    );
    assert_eq!(entry.id.id(), 1);
    assert_eq!(entry.name.as_deref(), Some("increment-int"));
    assert_eq!(entry.interval(), Some(Duration::from_millis(2)));
    assert_eq!(entry.delay(), Some(Duration::from_millis(200)));
    assert_eq!(*entry.callback(), 7);
    assert!(entry.created() >= before);
    let next = ScheduleEntry::with_interval(Duration::from_millis(1), None, None, 0u32, &mut ids);
    assert_eq!(next.id.id(), 2);
    assert_eq!(next.delay(), None);
}

#[test]
fn one_time_runs_once_after_its_delay() {
    let mut ids = IdSequence::new();
    let entry = ScheduleEntry::one_time(Duration::from_millis(20), None, "cb", &mut ids);
    assert_eq!(entry.interval(), None);
    assert_eq!(entry.delay(), Some(Duration::from_millis(20)));
    assert!(entry.name.is_none());
    let (swapped, old) = entry.with_callback(5u8);
    assert_eq!(old, "cb");
    assert_eq!(*swapped.callback(), 5);
    assert_eq!(swapped.id.id(), 1);
    assert_eq!(swapped.delay(), Some(Duration::from_millis(20)));
}

#[test]
fn entries_made_at_a_given_instant() {
    let mut ids = IdSequence::new();
    let now = Instant::now();
    let entry = ScheduleEntry::with_interval_at(now, Duration::from_millis(500), Some(Duration::from_millis(200)), None, (), &mut ids);
    assert_eq!(entry.created(), now);
    assert_eq!(entry.created() + entry.delay().unwrap(), now + Duration::from_millis(200));
    let once = ScheduleEntry::one_time_at(now, Duration::from_millis(20), None, (), &mut ids);
    assert_eq!(once.created(), now);
    assert_eq!(once.id.id(), 2);
}

#[test]
fn scheduler_thread_names() {
    assert_eq!(scheduler_thread_name(None, 7), "mio-misc-scheduler-7");
    assert_eq!(scheduler_thread_name(Some("timers".to_string()), 12), "mio-misc-scheduler-timers-12");
    assert_eq!(scheduler_thread_name(None, 4_294_967_295), "mio-misc-scheduler-4294967295");
}

#[test]
fn notification_delivers_its_id() {
    let poll = Poll::new().unwrap();
    let waker = Arc::new(Waker::new(poll.registry(), Token(0)).unwrap());
    let queue = Arc::new(NotificationQueue::new(waker));
    let mut ids = IdSequence::new();
    let id = NotificationId::gen_next(&mut ids);
    let notification = Notification::new(Arc::clone(&queue), id);
    assert!(notification.deliver().is_ok());
    assert_eq!(queue.receive(), Some(id));
}
