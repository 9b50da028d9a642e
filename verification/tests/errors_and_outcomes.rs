use mio::{Poll, Token, Waker};
use mio_misc::channel::{self, send_outcome, try_send_outcome, SendError, TrySendError};
use mio_misc::queue::{
    push_outcome, wake_outcome, BoundedNotificationQueue, NotificationError, NotificationQueue,
    NotificationReceiver, Notifier,
};
use mio_misc::{IdSequence, NotificationId};
use std::io;
use std::sync::Arc;

fn io_err() -> io::Error {
    io::Error::new(io::ErrorKind::Other, "boom")
}

#[test]
fn send_outcome_maps_each_case() {
    assert!(matches!(send_outcome::<u8>(Ok(()), Ok(())), Ok(())));
    assert!(matches!(send_outcome(Err(9u8), Ok(())), Err(SendError::Disconnected(9))));
    let mut ids = IdSequence::new();
    let id = NotificationId::gen_next(&mut ids);
    assert!(matches!(
        send_outcome::<u8>(Ok(()), Err(NotificationError::Full(id))),
        Err(SendError::NotificationQueueFull)
    ));
    match send_outcome::<u8>(Ok(()), Err(NotificationError::Io(io_err()))) {
        Err(SendError::Io(e)) => assert_eq!(e.to_string(), "boom"),
        _ => panic!("the notifier's I/O error is passed on"),
    }
}

#[test]
fn try_send_outcome_maps_each_case() {
    assert!(matches!(try_send_outcome::<u8>(Ok(()), Ok(())), Ok(())));
    assert!(matches!(
        try_send_outcome(Err(TrySendError::Full(3u8)), Ok(())),
        Err(TrySendError::Full(3))
    ));
    assert!(matches!(
        try_send_outcome(Err(TrySendError::Disconnected(4u8)), Ok(())),
        Err(TrySendError::Disconnected(4))
    ));
    assert!(matches!(
        try_send_outcome::<u8>(Ok(()), Err(NotificationError::Io(io_err()))),
        Err(TrySendError::Io(_))
    ));
    let mut ids = IdSequence::new();
    let id = NotificationId::gen_next(&mut ids);
    assert!(matches!(
        try_send_outcome::<u8>(Ok(()), Err(NotificationError::Full(id))),
        Err(TrySendError::NotificationQueueFull)
    ));
}

#[test]
fn push_and_wake_outcomes_map_each_case() {
    let mut ids = IdSequence::new();
    let id = NotificationId::gen_next(&mut ids);
    assert!(matches!(push_outcome(Ok(()), Ok(())), Ok(())));
    match push_outcome(Err(id), Ok(())) {
        Err(NotificationError::Full(v)) => assert_eq!(v, id),
        _ => panic!("a refused id comes back"),
    }
    match push_outcome(Ok(()), Err(io_err())) {
        Err(NotificationError::Io(e)) => assert_eq!(e.to_string(), "boom"),
        _ => panic!("the waker's error comes back"),
    }
    assert!(matches!(wake_outcome(Ok(())), Ok(())));
    assert!(matches!(wake_outcome(Err(io_err())), Err(NotificationError::Io(_))));
}

#[test]
fn error_messages() {
    assert_eq!(SendError::<u8>::Disconnected(1).to_string(), "Disconnected");
    assert_eq!(SendError::<u8>::NotificationQueueFull.to_string(), "Notification queue full");
    assert_eq!(SendError::<u8>::Io(io_err()).to_string(), "boom");
    assert_eq!(TrySendError::<u8>::Full(1).to_string(), "Channel full");
    assert_eq!(TrySendError::<u8>::Disconnected(1).to_string(), "Disconnected");
    assert_eq!(TrySendError::<u8>::NotificationQueueFull.to_string(), "Notification queue full");
    assert_eq!(TrySendError::<u8>::Io(io_err()).to_string(), "boom");
    let mut ids = IdSequence::new();
    let id = NotificationId::gen_next(&mut ids);
    assert_eq!(NotificationError::Full(id).to_string(), "Full");
    assert_eq!(NotificationError::<NotificationId>::Io(io_err()).to_string(), "boom");
}

#[test]
fn conversions() {
    assert!(matches!(SendError::<u8>::from(io_err()), SendError::Io(_)));
    assert!(matches!(TrySendError::<u8>::from(io_err()), TrySendError::Io(_)));
    assert!(matches!(NotificationError::<u8>::from(io_err()), NotificationError::Io(_)));
    let mut ids = IdSequence::new();
    let id = NotificationId::gen_next(&mut ids);
    assert!(matches!(SendError::<u8>::from(NotificationError::Full(id)), SendError::NotificationQueueFull));
    assert!(matches!(SendError::<u8>::from(NotificationError::<NotificationId>::Io(io_err())), SendError::Io(_)));
    assert!(matches!(TrySendError::<u8>::from(NotificationError::<NotificationId>::Io(io_err())), TrySendError::Io(_)));
    assert!(matches!(TrySendError::<u8>::from(NotificationError::Full(id)), TrySendError::NotificationQueueFull));
}

#[test]
fn bounded_queue_refuses_when_full() {
    let poll = Poll::new().unwrap();
    let waker = Arc::new(Waker::new(poll.registry(), Token(0)).unwrap());
    let queue = BoundedNotificationQueue::new(2, waker);
    let mut ids = IdSequence::new();
    let a = NotificationId::gen_next(&mut ids);
    let b = NotificationId::gen_next(&mut ids);
    let c = NotificationId::gen_next(&mut ids);
    assert!(queue.push(a).is_ok());
    assert!(queue.notify(b).is_ok());
    match queue.push(c) {
        Err(NotificationError::Full(v)) => assert_eq!(v, c),
        _ => panic!("the queue holds two ids"),
    }
    assert_eq!(queue.len(), 2);
    assert_eq!(queue.receive(), Some(a));
    assert_eq!(queue.pop(), Some(b));
    assert!(queue.is_empty());
    assert!(NotificationReceiver::is_empty(&queue));
}

#[test]
fn unbounded_queue_keeps_order() {
    let poll = Poll::new().unwrap();
    let waker = Arc::new(Waker::new(poll.registry(), Token(0)).unwrap());
    let queue = NotificationQueue::new(waker);
    let mut ids = IdSequence::new();
    let a = NotificationId::gen_next(&mut ids);
    let b = NotificationId::gen_next(&mut ids);
    queue.push(a).unwrap();
    assert!(queue.notify(b).is_ok());
    assert_eq!(NotificationReceiver::len(&queue), 2);
    assert_eq!(queue.receive(), Some(a));
    assert_eq!(queue.pop(), Some(b));
    assert!(queue.is_empty());
    assert_eq!(queue.len(), 0);
}

#[test]
fn sync_channel_try_send_reports_full_and_disconnected() {
    let poll = Poll::new().unwrap();
    let waker = Arc::new(Waker::new(poll.registry(), Token(0)).unwrap());
    let queue = Arc::new(NotificationQueue::new(waker));
    let mut ids = IdSequence::new();
    let id = NotificationId::gen_next(&mut ids);
    let (tx, rx) = channel::sync_channel(Arc::clone(&queue), id, 1);
    assert!(tx.try_send(1u8).is_ok());
    assert!(matches!(tx.try_send(2u8), Err(TrySendError::Full(2))));
    assert_eq!(queue.pop(), Some(id));
    assert!(queue.pop().is_none());
    let tx2 = tx.clone();
    assert_eq!(rx.recv().unwrap(), 1);
    assert!(tx2.send(3u8).is_ok());
    drop(rx);
    assert!(matches!(tx.try_send(4u8), Err(TrySendError::Disconnected(4))));
    assert!(matches!(tx.send(5u8), Err(SendError::Disconnected(5))));
}

#[test]
fn bounded_crossbeam_channel_reports_full() {
    let poll = Poll::new().unwrap();
    let waker = Arc::new(Waker::new(poll.registry(), Token(0)).unwrap());
    let queue = Arc::new(NotificationQueue::new(waker));
    let mut ids = IdSequence::new();
    let id = NotificationId::gen_next(&mut ids);
    let (tx, rx) = channel::crossbeam_channel_bounded(Arc::clone(&queue), id, 1);
    assert!(tx.try_send("a").is_ok());
    assert!(matches!(tx.try_send("b"), Err(TrySendError::Full("b"))));
    assert_eq!(rx.try_recv().unwrap(), "a");
    drop(rx);
    assert!(matches!(tx.send("c"), Err(SendError::Disconnected("c"))));
    assert_eq!(queue.pop(), Some(id));
}

#[test]
fn full_notification_queue_is_reported_by_sender() {
    let poll = Poll::new().unwrap();
    let waker = Arc::new(Waker::new(poll.registry(), Token(0)).unwrap());
    let queue = Arc::new(BoundedNotificationQueue::new(1, waker));
    let mut ids = IdSequence::new();
    let id = NotificationId::gen_next(&mut ids);
    let (tx, rx) = channel::channel(Arc::clone(&queue), id);
    assert!(tx.send(1u8).is_ok());
    assert!(matches!(tx.send(2u8), Err(SendError::NotificationQueueFull)));
    assert_eq!(rx.try_recv().unwrap(), 1);
    assert_eq!(rx.try_recv().unwrap(), 2);
}

#[test]
fn checked_constructors_refuse_impossible_capacities() {
    let poll = Poll::new().unwrap();
    let waker = Arc::new(Waker::new(poll.registry(), Token(0)).unwrap());
    assert!(BoundedNotificationQueue::try_new(0, Arc::clone(&waker)).is_none());
    assert!(BoundedNotificationQueue::try_new(usize::MAX, Arc::clone(&waker)).is_none());
    let queue = BoundedNotificationQueue::try_new(3, Arc::clone(&waker)).unwrap();
    assert_eq!(queue.len(), 0);
    let queue = Arc::new(NotificationQueue::new(waker));
    let mut ids = IdSequence::new();
    let id = NotificationId::gen_next(&mut ids);
    assert!(channel::crossbeam_channel_bounded_checked::<u8, _>(Arc::clone(&queue), id, usize::MAX).is_none());
    let (tx, rx) = channel::crossbeam_channel_bounded_checked::<u8, _>(Arc::clone(&queue), id, 0).unwrap();
    assert!(matches!(tx.try_send(1), Err(TrySendError::Full(1))));
    drop(rx);
    let (tx, _rx) = channel::crossbeam_channel_bounded_checked::<u8, _>(queue, id, 2).unwrap();
    assert!(tx.try_send(1).is_ok());
}

#[test]
fn checked_sync_channel_refuses_impossible_bounds() {
    let poll = Poll::new().unwrap();
    let waker = Arc::new(Waker::new(poll.registry(), Token(0)).unwrap());
    let queue = Arc::new(NotificationQueue::new(waker));
    let mut ids = IdSequence::new();
    let id = NotificationId::gen_next(&mut ids);
    assert!(channel::sync_channel_checked::<u8, _>(Arc::clone(&queue), id, usize::MAX).is_none());
    let (tx, rx) = channel::sync_channel_checked::<u8, _>(Arc::clone(&queue), id, 1).unwrap();
    assert!(tx.try_send(1).is_ok());
    assert!(matches!(tx.try_send(2), Err(TrySendError::Full(2))));
    assert_eq!(rx.recv().unwrap(), 1);
    assert_eq!(queue.pop(), Some(id));
}
