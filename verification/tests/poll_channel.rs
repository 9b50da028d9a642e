use mio::{Events, Poll, Token, Waker};
use mio_misc::channel;
use mio_misc::queue::NotificationQueue;
use mio_misc::{IdSequence, NotificationId};
use std::sync::Arc;
use std::time::Duration;

const NO_EVENTS_TEXT: &str = "there should be no events";
const EVENTS_EXIST_TEXT: &str = "there should be events";

#[test]
pub fn test_poll_channel() {
    let poll_timeout_duration = Duration::from_millis(300);
    let mut poll = Poll::new().unwrap();
    let mut events = Events::with_capacity(1024);
    let waker_token = Token(2);
    let waker = Arc::new(Waker::new(poll.registry(), waker_token).unwrap());
    let mut ids = IdSequence::new();

    let queue = Arc::new(NotificationQueue::new(waker));
    let channel_notifier = Arc::clone(&queue);

    let channel_1_id = NotificationId::gen_next(&mut ids);
    let (tx1, rx1) = channel::channel(channel_notifier, channel_1_id);

    let channel_notifier = Arc::clone(&queue);
    let channel_2_id = NotificationId::gen_next(&mut ids);
    let (tx2, rx2) = channel::channel(channel_notifier, channel_2_id);

    poll.poll(&mut events, Some(poll_timeout_duration)).unwrap();
    assert!(events.is_empty(), "{}", NO_EVENTS_TEXT);

    // Push the value
    tx1.send("hello").unwrap();
    tx2.send("world").unwrap();

    // Polling will contain the event
    poll.poll(&mut events, Some(poll_timeout_duration)).unwrap();

    let event = events.iter().next().unwrap();
    assert_eq!(event.token(), waker_token);
    assert!(event.is_readable());
    assert_eq!(queue.pop().unwrap(), channel_1_id);
    assert_eq!(queue.pop().unwrap(), channel_2_id);

    // Poll again and there should be no events
    poll.poll(&mut events, Some(poll_timeout_duration)).unwrap();
    assert!(events.is_empty(), "{}", NO_EVENTS_TEXT);
    assert!(queue.pop().is_none(), "there should be no notifications");

    // Read the values
    assert_eq!("hello", rx1.try_recv().unwrap());
    assert_eq!("world", rx2.try_recv().unwrap());

    poll.poll(&mut events, Some(poll_timeout_duration)).unwrap();
    assert!(events.is_empty(), "{}", NO_EVENTS_TEXT);

    // Push values
    tx2.send("meow").unwrap();
    tx1.send("woof").unwrap();

    poll.poll(&mut events, Some(poll_timeout_duration)).unwrap();
    assert!(!events.is_empty(), "{}", EVENTS_EXIST_TEXT);

    let event = events.iter().next().unwrap();
    assert_eq!(event.token(), waker_token);
    assert!(event.is_readable());
    assert_eq!(queue.pop().unwrap(), channel_2_id);
    assert_eq!(queue.pop().unwrap(), channel_1_id);
}

#[test]
pub fn test_poll_channel_crossbeam() {
    let poll_timeout_duration = Duration::from_millis(300);
    let mut poll = Poll::new().unwrap();
    let mut events = Events::with_capacity(1024);
    let waker_token = Token(2);
    let waker = Arc::new(Waker::new(poll.registry(), waker_token).unwrap());
    let mut ids = IdSequence::new();

    let queue = Arc::new(NotificationQueue::new(waker));
    let channel_notifier = Arc::clone(&queue);

    let channel_1_id = NotificationId::gen_next(&mut ids);
    let (tx1, rx1) = channel::crossbeam_channel_unbounded(channel_notifier, channel_1_id);

    let channel_notifier = Arc::clone(&queue);
    let channel_2_id = NotificationId::gen_next(&mut ids);
    let (tx2, rx2) = channel::crossbeam_channel_unbounded(channel_notifier, channel_2_id);

    poll.poll(&mut events, Some(poll_timeout_duration)).unwrap();
    assert!(events.is_empty(), "{}", NO_EVENTS_TEXT);

    // Push the value
    tx1.send("hello").unwrap();
    tx2.send("world").unwrap();

    // Polling will contain the event
    poll.poll(&mut events, Some(poll_timeout_duration)).unwrap();

    let event = events.iter().next().unwrap();
    assert_eq!(event.token(), waker_token);
    assert!(event.is_readable());
    assert_eq!(queue.pop().unwrap(), channel_1_id);
    assert_eq!(queue.pop().unwrap(), channel_2_id);

    // Poll again and there should be no events
    poll.poll(&mut events, Some(poll_timeout_duration)).unwrap();
    assert!(events.is_empty(), "{}", NO_EVENTS_TEXT);
    assert!(queue.pop().is_none(), "there should be no notifications");

    // Read the values
    assert_eq!("hello", rx1.try_recv().unwrap());
    assert_eq!("world", rx2.try_recv().unwrap());

    poll.poll(&mut events, Some(poll_timeout_duration)).unwrap();
    assert!(events.is_empty(), "{}", NO_EVENTS_TEXT);

    // Push values
    tx2.send("meow").unwrap();
    tx1.send("woof").unwrap();

    poll.poll(&mut events, Some(poll_timeout_duration)).unwrap();
    assert!(!events.is_empty(), "{}", EVENTS_EXIST_TEXT);

    let event = events.iter().next().unwrap();
    assert_eq!(event.token(), waker_token);
    assert!(event.is_readable());
    assert_eq!(queue.pop().unwrap(), channel_2_id);
    assert_eq!(queue.pop().unwrap(), channel_1_id);
}

#[test]
pub fn test_dropping_receive_before_poll() {
    let mut poll = Poll::new().unwrap();
    let mut events = Events::with_capacity(10);
    let waker = Arc::new(Waker::new(poll.registry(), Token(0)).unwrap());
    let queue = Arc::new(NotificationQueue::new(waker));
    let channel_notifier = Arc::clone(&queue);
    let mut ids = IdSequence::new();
    let (tx, rx) = channel::channel(channel_notifier, NotificationId::gen_next(&mut ids));

    drop(rx);
    assert!(
        tx.send("hello").is_err(),
        "sending should fail after dropping the receiving end"
    );

    poll.poll(&mut events, Some(Duration::from_millis(300))).unwrap();
    assert!(events.is_empty(), "{}", NO_EVENTS_TEXT);
}
