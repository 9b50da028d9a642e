//! Thread safe queues that that trigger notifications on `mio::Waker`
//!
//! The queues are shared between threads and change behind shared references,
//! so what a call finds in them depends on the other threads: the contracts
//! here state what holds whatever the other threads did.
use vstd::prelude::*;
use crate::NotificationId;
use crossbeam_queue::{ArrayQueue, SegQueue};
use mio::Waker;
use std::io;
use std::sync::Arc;
use vstd::layout::{align_of, size_of};
use vstd::std_specs::convert::FromSpecImpl;

verus! {

#[verifier::external_type_specification]
#[verifier::external_body]
#[verifier::reject_recursive_types(T)]
pub struct ExSegQueue<T>(SegQueue<T>);

#[verifier::external_type_specification]
#[verifier::external_body]
#[verifier::reject_recursive_types(T)]
pub struct ExArrayQueue<T>(ArrayQueue<T>);

#[verifier::external_type_specification]
#[verifier::external_body]
pub struct ExWaker(Waker);

#[verifier::external_type_specification]
#[verifier::external_body]
pub struct ExIoError(io::Error);

/// `SegQueue::new` makes an empty unbounded queue; no contents are modelled,
/// since other threads change them behind shared references.
pub assume_specification<T>[ SegQueue::<T>::new ]() -> SegQueue<T>;

/// `SegQueue::push` appends `value`; it never fails.
pub assume_specification<T>[ SegQueue::<T>::push ](queue: &SegQueue<T>, value: T);

/// `SegQueue::pop` takes the oldest element, if any; which one depends on the
/// other threads.
pub assume_specification<T>[ SegQueue::<T>::pop ](queue: &SegQueue<T>) -> Option<T>;

/// Calls `SegQueue::is_empty`, which reports emptiness at one moment of a
/// shared queue; nothing is stated of the answer.
#[verifier::external_body]
fn seg_queue_is_empty<T>(queue: &SegQueue<T>) -> bool {
    queue.is_empty()
}

/// Calls `SegQueue::len`, which reports the length at one moment of a shared
/// queue; nothing is stated of the answer.
#[verifier::external_body]
fn seg_queue_len<T>(queue: &SegQueue<T>) -> usize {
    queue.len()
}

/// `r` is an answer that `SegQueue::is_empty` gives on `queue`.
pub closed spec fn seg_queue_empty_answer(queue: SegQueue<NotificationId>, r: bool) -> bool {
    call_ensures(seg_queue_is_empty::<NotificationId>, (&queue,), r)
}

/// `n` is an answer that `SegQueue::len` gives on `queue`.
pub closed spec fn seg_queue_len_answer(queue: SegQueue<NotificationId>, n: usize) -> bool {
    call_ensures(seg_queue_len::<NotificationId>, (&queue,), n)
}

/// The capacities `ArrayQueue::new` accepts: it panics on zero, and on a
/// capacity whose buffer of slots (an 8-byte stamp beside each element) is too
/// large to allocate.
pub open spec fn array_queue_capacity_ok<T>(cap: usize) -> bool {
    &&& 0 < cap
    &&& cap * (size_of::<T>() + align_of::<T>() + 16) <= isize::MAX
}

/// Whether `cap` buffer slots, each an element of type `T` with a stamp
/// beside it, fit in the address space; tested at run time.
pub(crate) fn slots_fit<T>(cap: usize) -> (fits: bool)
    ensures
        fits == (cap * (size_of::<T>() + align_of::<T>() + 16) <= isize::MAX),
{
    let per_slot = core::mem::size_of::<T>().checked_add(core::mem::align_of::<T>());
    let per_slot = match per_slot {
        Some(p) => p.checked_add(16),
        None => None,
    };
    match per_slot {
        None => {
            assert(cap >= 1 ==> cap * (size_of::<T>() + align_of::<T>() + 16) > isize::MAX) by (nonlinear_arith)
                requires
                    size_of::<T>() + align_of::<T>() + 16 > usize::MAX,
                    usize::MAX >= isize::MAX,
            {
            }
            cap == 0
        },
        Some(p) => match cap.checked_mul(p) {
            None => false,
            Some(total) => total <= isize::MAX as usize,
        },
    }
}

/// The capacity an `ArrayQueue` of ids was made with: the most ids it holds.
/// It is fixed when the queue is made and never changes.
pub uninterp spec fn array_queue_capacity(queue: ArrayQueue<NotificationId>) -> nat;

/// Calls `ArrayQueue::new`, which makes an empty queue holding at most `cap`
/// ids; the capacity it keeps is `cap`.
#[verifier::external_body]
fn array_queue_new(cap: usize) -> (queue: ArrayQueue<NotificationId>)
    requires
        array_queue_capacity_ok::<NotificationId>(cap),
    ensures
        array_queue_capacity(queue) == cap,
{
    ArrayQueue::new(cap)
}

/// `ArrayQueue::push` appends `value` unless the queue is full, in which case
/// it hands `value` back as the error.
pub assume_specification<T>[ ArrayQueue::<T>::push ](queue: &ArrayQueue<T>, value: T) -> (r: std::result::Result<(), T>)
    ensures
        r matches Err(v) ==> v == value,
;

/// `ArrayQueue::pop` takes the oldest element, if any; which one depends on
/// the other threads.
pub assume_specification<T>[ ArrayQueue::<T>::pop ](queue: &ArrayQueue<T>) -> Option<T>;

/// Calls `ArrayQueue::is_empty`, which reports emptiness at one moment of a
/// shared queue; nothing is stated of the answer.
#[verifier::external_body]
fn array_queue_is_empty<T>(queue: &ArrayQueue<T>) -> bool {
    queue.is_empty()
}

/// Calls `ArrayQueue::len`, which reports the length at one moment of a shared
/// queue: never more than the capacity the queue was made with.
#[verifier::external_body]
fn array_queue_len(queue: &ArrayQueue<NotificationId>) -> (n: usize)
    ensures
        n <= array_queue_capacity(*queue),
{
    queue.len()
}

/// `r` is an answer that `ArrayQueue::is_empty` gives on `queue`.
pub closed spec fn array_queue_empty_answer(queue: ArrayQueue<NotificationId>, r: bool) -> bool {
    call_ensures(array_queue_is_empty::<NotificationId>, (&queue,), r)
}

/// `n` is an answer that `ArrayQueue::len` gives on `queue`.
pub closed spec fn array_queue_len_answer(queue: ArrayQueue<NotificationId>, n: usize) -> bool {
    call_ensures(array_queue_len, (&queue,), n)
}

/// `Waker::wake` wakes the `Poll` the waker was registered with; whether the
/// operating system call succeeds is not stated.
pub assume_specification[ Waker::wake ](waker: &Waker) -> std::io::Result<()>;

/// Calls `Display::fmt` on an I/O error through `format!`: its message, which
/// comes from the operating system or the error's maker; nothing is stated of it.
#[verifier::external_body]
pub(crate) fn io_error_message(e: &io::Error) -> String {
    format!("{}", e)
}

/// The result of a notification.
pub type Result = core::result::Result<(), NotificationError<NotificationId>>;

/// What a push onto a bounded queue reports, given what the queue did with the
/// id (`Err` hands it back when full) and, once the queue took it, what the
/// waker answered.
pub open spec fn push_report(pushed: core::result::Result<(), NotificationId>, woken: io::Result<()>) -> Result {
    match pushed {
        Err(v) => Err(NotificationError::Full(v)),
        Ok(()) => match woken {
            Ok(()) => Ok(()),
            Err(e) => Err(NotificationError::Io(e)),
        },
    }
}

/// What a notification reports, given what the waker answered.
pub open spec fn wake_report(woken: io::Result<()>) -> Result {
    match woken {
        Ok(()) => Ok(()),
        Err(e) => Err(NotificationError::Io(e)),
    }
}

/// Turns what a bounded queue and the waker did into the push's result: a
/// refused id comes back in `Full`; the waker's failure comes back in `Io`.
pub fn push_outcome(pushed: core::result::Result<(), NotificationId>, woken: io::Result<()>) -> (r: Result)
    ensures
        r == push_report(pushed, woken),
{
    match pushed {
        Err(v) => Err(NotificationError::Full(v)),
        Ok(()) => wake_outcome(woken),
    }
}

/// Turns what the waker answered into a notification's result: its failure
/// comes back in `Io`.
pub fn wake_outcome(woken: io::Result<()>) -> (r: Result)
    ensures
        r == wake_report(woken),
{
    match woken {
        Ok(()) => Ok(()),
        Err(e) => Err(NotificationError::from(e)),
    }
}

/// Represents the side that notifies
pub trait Notifier: Send + Sync {
    /// Whether `r` is an answer this notifier may give when told of `id`;
    /// each notifier says what its answers are.
    spec fn answers(&self, id: NotificationId, r: Result) -> bool;

    /// Notifies `Poll`
    fn notify(&self, id: NotificationId) -> (r: Result)
        ensures
            self.answers(id, r),
    ;
}

/// Represents the side that receives event notifications
pub trait NotificationReceiver: Send + Sync {
    /// Retrieves the next notification, if there's any
    fn receive(&self) -> Option<NotificationId>;

    /// Returns number of notifications
    fn len(&self) -> usize;

    /// Returns `true` if the queue is empty.
    fn is_empty(&self) -> bool;
}

/// An unbounded queue that helps with simulation of registering event sources with `Poll`.
/// It keeps track of `NotificationId`s associated with `Waker`
pub struct NotificationQueue {
    /// Waker to notify Poll
    waker: Arc<Waker>,
    /// Queue of `NotificationId`s
    queue: SegQueue<NotificationId>,
}

impl NotificationQueue {
    /// The waker the queue wakes on each push.
    pub closed spec fn waker(&self) -> Arc<Waker> {
        self.waker
    }

    /// The queue of ids that pushes append to and pops take from.
    pub closed spec fn ids(&self) -> SegQueue<NotificationId> {
        self.queue
    }

    /// `id` was handed to the push of the queue's own `SegQueue`.
    pub closed spec fn handed_to_queue(&self, id: NotificationId) -> bool {
        call_ensures(SegQueue::<NotificationId>::push, (&self.queue, id), ())
    }

    /// `r` is an answer that waking the queue's own waker gave.
    pub closed spec fn waker_answer(&self, r: io::Result<()>) -> bool {
        call_ensures(Waker::wake, (&*self.waker,), r)
    }

    /// `r` is an answer that the pop of the queue's own `SegQueue` gave.
    pub closed spec fn pop_answer(&self, r: Option<NotificationId>) -> bool {
        call_ensures(SegQueue::<NotificationId>::pop, (&self.queue,), r)
    }

    /// `r` is an answer that asking the queue's own `SegQueue` whether it is
    /// empty gave.
    pub closed spec fn emptiness_answer(&self, r: bool) -> bool {
        seg_queue_empty_answer(self.queue, r)
    }

    /// `r` is an answer that asking the queue's own `SegQueue` for its length
    /// gave.
    pub closed spec fn length_answer(&self, r: usize) -> bool {
        seg_queue_len_answer(self.queue, r)
    }

    /// Creates a notification queue
    pub fn new(waker: Arc<Waker>) -> (q: NotificationQueue)
        ensures
            q.waker() == waker,
    {
        NotificationQueue { waker, queue: SegQueue::new() }
    }

    /// Queues the `NotificationId` and notifies the `Poll` associated with
    /// `Waker`; the result is the waker's.
    pub fn push(&self, id: NotificationId) -> (r: io::Result<()>)
        ensures
            self.handed_to_queue(id),
            self.waker_answer(r),
    {
        self.queue.push(id);
        self.waker.wake()
    }

    /// Attempts to remove an element from the queue
    /// If the queue is empty, None is returned.
    pub fn pop(&self) -> (r: Option<NotificationId>)
        ensures
            self.pop_answer(r),
    {
        self.queue.pop()
    }

    /// Returns `true` if the queue is empty
    pub fn is_empty(&self) -> (r: bool)
        ensures
            self.emptiness_answer(r),
    {
        seg_queue_is_empty(&self.queue)
    }

    /// Returns queue length
    pub fn len(&self) -> (r: usize)
        ensures
            self.length_answer(r),
    {
        seg_queue_len(&self.queue)
    }
}

impl Notifier for NotificationQueue {
    /// The answer is what waking the queue's waker answered.
    open spec fn answers(&self, id: NotificationId, r: Result) -> bool {
        exists|woken: io::Result<()>| self.waker_answer(woken) && r == wake_report(woken)
    }

    /// Pushes `id`; a failure can only be the waker's I/O error.
    fn notify(&self, id: NotificationId) -> (r: Result)
        ensures
            self.handed_to_queue(id),
            r matches Err(e) ==> e is Io,
    {
        wake_outcome(self.push(id))
    }
}

impl NotificationReceiver for NotificationQueue {
    fn receive(&self) -> (r: Option<NotificationId>)
        ensures
            self.pop_answer(r),
    {
        self.pop()
    }

    fn len(&self) -> (r: usize)
        ensures
            self.length_answer(r),
    {
        self.len()
    }

    fn is_empty(&self) -> (r: bool)
        ensures
            self.emptiness_answer(r),
    {
        self.is_empty()
    }
}

/// A bounded queue that helps with simulation of registering event sources with `Poll`.
/// It keeps track of `NotificationId`s associated with Waker
pub struct BoundedNotificationQueue {
    /// Waker to notify Poll
    waker: Arc<Waker>,
    /// Queue of `NotificationId`'s
    queue: ArrayQueue<NotificationId>,
}

impl BoundedNotificationQueue {
    /// The waker the queue wakes on each accepted push.
    pub closed spec fn waker(&self) -> Arc<Waker> {
        self.waker
    }

    /// The queue of ids that pushes append to and pops take from.
    pub closed spec fn ids(&self) -> ArrayQueue<NotificationId> {
        self.queue
    }

    /// The most ids the queue holds at once.
    pub closed spec fn capacity(&self) -> nat {
        array_queue_capacity(self.queue)
    }

    /// `r` is an answer that the push of `id` onto the queue's own
    /// `ArrayQueue` gave.
    pub closed spec fn push_answer(&self, id: NotificationId, r: core::result::Result<(), NotificationId>) -> bool {
        call_ensures(ArrayQueue::<NotificationId>::push, (&self.queue, id), r)
    }

    /// `r` is an answer that waking the queue's own waker gave.
    pub closed spec fn waker_answer(&self, r: io::Result<()>) -> bool {
        call_ensures(Waker::wake, (&*self.waker,), r)
    }

    /// `r` is an answer that the pop of the queue's own `ArrayQueue` gave.
    pub closed spec fn pop_answer(&self, r: Option<NotificationId>) -> bool {
        call_ensures(ArrayQueue::<NotificationId>::pop, (&self.queue,), r)
    }

    /// `r` is an answer that asking the queue's own `ArrayQueue` whether it is
    /// empty gave.
    pub closed spec fn emptiness_answer(&self, r: bool) -> bool {
        array_queue_empty_answer(self.queue, r)
    }

    /// `r` is an answer that asking the queue's own `ArrayQueue` for its length
    /// gave.
    pub closed spec fn length_answer(&self, r: usize) -> bool {
        array_queue_len_answer(self.queue, r)
    }

    /// Creates the queue, holding at most `size` ids.
    pub fn new(size: usize, waker: Arc<Waker>) -> (q: BoundedNotificationQueue)
        requires
            array_queue_capacity_ok::<NotificationId>(size),
        ensures
            q.waker() == waker,
            q.capacity() == size,
    {
        BoundedNotificationQueue { waker, queue: array_queue_new(size) }
    }

    /// Creates the queue, holding at most `size` ids, when `size` is a capacity
    /// the queue accepts; otherwise none.
    pub fn try_new(size: usize, waker: Arc<Waker>) -> (q: Option<BoundedNotificationQueue>)
        ensures
            q is Some <==> array_queue_capacity_ok::<NotificationId>(size),
            q matches Some(q) ==> q.waker() == waker && q.capacity() == size,
    {
        if size > 0 && slots_fit::<NotificationId>(size) {
            Some(BoundedNotificationQueue::new(size, waker))
        } else {
            None
        }
    }

    /// Queues the `NotificationId` and notifies the `Poll` associated with
    /// `Waker`. A full queue refuses the id and hands it back in
    /// `NotificationError::Full`, without waking; otherwise the waker's error,
    /// if any, is returned.
    pub fn push(&self, id: NotificationId) -> (r: Result)
        ensures
            exists|pushed: core::result::Result<(), NotificationId>, woken: io::Result<()>|
                self.push_answer(id, pushed)
                && (pushed matches Err(v) ==> v == id)
                && (pushed is Ok ==> self.waker_answer(woken))
                && r == push_report(pushed, woken),
            r matches Err(NotificationError::Full(v)) ==> v == id,
    {
        let pushed = self.queue.push(id);
        let woken = match &pushed {
            Ok(()) => self.waker.wake(),
            Err(_) => Ok(()),
        };
        push_outcome(pushed, woken)
    }

    /// Attempts to remove an element from the queue
    /// If the queue is empty, None is returned.
    pub fn pop(&self) -> (r: Option<NotificationId>)
        ensures
            self.pop_answer(r),
    {
        self.queue.pop()
    }

    /// Returns `true` if the queue is empty.
    pub fn is_empty(&self) -> (r: bool)
        ensures
            self.emptiness_answer(r),
    {
        array_queue_is_empty(&self.queue)
    }

    /// Returns queue length, which never exceeds the capacity.
    pub fn len(&self) -> (n: usize)
        ensures
            self.length_answer(n),
            n <= self.capacity(),
    {
        array_queue_len(&self.queue)
    }
}

impl Notifier for BoundedNotificationQueue {
    /// The answer is what the push reported: a refused id comes back in
    /// `Full`, the waker's failure in `Io`.
    open spec fn answers(&self, id: NotificationId, r: Result) -> bool {
        exists|pushed: core::result::Result<(), NotificationId>, woken: io::Result<()>|
            self.push_answer(id, pushed)
            && (pushed matches Err(v) ==> v == id)
            && (pushed is Ok ==> self.waker_answer(woken))
            && r == push_report(pushed, woken)
    }

    /// Pushes `id`: a full queue hands it back in `NotificationError::Full`.
    fn notify(&self, id: NotificationId) -> (r: Result)
        ensures
            r matches Err(NotificationError::Full(v)) ==> v == id,
    {
        self.push(id)
    }
}

/// A push onto a bounded queue that the queue accepts wakes the queue's own
/// waker and reports what the waker answered: `Ok` when it woke the `Poll`, its
/// I/O error otherwise. A push the full queue refuses reports `Full` with the
/// id handed back.
pub proof fn law_accepted_push_wakes_the_poll(q: &BoundedNotificationQueue, id: NotificationId, r: Result)
    requires
        call_ensures(BoundedNotificationQueue::push, (q, id), r),
    ensures
        r matches Err(NotificationError::Full(v)) ==> v == id
            && call_ensures(ArrayQueue::<NotificationId>::push, (&q.ids(), id), Err(id)),
        !(r matches Err(NotificationError::Full(_))) ==> {
            &&& exists|pushed: core::result::Result<(), NotificationId>, woken: io::Result<()>|
                #[trigger] call_ensures(ArrayQueue::<NotificationId>::push, (&q.ids(), id), pushed)
                && pushed is Ok
                && #[trigger] call_ensures(Waker::wake, (&*q.waker(),), woken)
                && (r is Ok <==> woken is Ok)
                && (woken matches Err(e) ==> r == Err::<(), NotificationError<NotificationId>>(NotificationError::Io(e)))
        },
{
    let (pushed, woken) = choose|pushed: core::result::Result<(), NotificationId>, woken: io::Result<()>|
        q.push_answer(id, pushed)
        && (pushed matches Err(v) ==> v == id)
        && (pushed is Ok ==> q.waker_answer(woken))
        && r == push_report(pushed, woken);
    if pushed is Ok {
        assert(call_ensures(ArrayQueue::<NotificationId>::push, (&q.ids(), id), pushed));
        assert(call_ensures(Waker::wake, (&*q.waker(),), woken));
    }
}

/// What the unbounded queue answers are its own queue's answers: a push, and a
/// notification through it, hands the id to the queue of ids and reports what
/// waking the queue's waker answered; `is_empty`, `len` and `pop`, also as a
/// receiver, ask that same queue of ids.
pub proof fn law_queue_answers_are_its_own(
    q: &NotificationQueue,
    id: NotificationId,
    pushed: io::Result<()>,
    notified: Result,
    empty: bool,
    n: usize,
    popped: Option<NotificationId>,
)
    ensures
        call_ensures(NotificationQueue::push, (q, id), pushed) ==> call_ensures(SegQueue::<NotificationId>::push, (&q.ids(), id), ())
            && call_ensures(Waker::wake, (&*q.waker(),), pushed),
        call_ensures(<NotificationQueue as Notifier>::notify, (q, id), notified) ==> {
            &&& call_ensures(SegQueue::<NotificationId>::push, (&q.ids(), id), ())
            &&& exists|woken: io::Result<()>| #[trigger] call_ensures(Waker::wake, (&*q.waker(),), woken)
                && (notified is Ok <==> woken is Ok)
                && (woken matches Err(e) ==> notified == Err::<(), NotificationError<NotificationId>>(NotificationError::Io(e)))
        },
        call_ensures(NotificationQueue::is_empty, (q,), empty) ==> seg_queue_empty_answer(q.ids(), empty),
        call_ensures(<NotificationQueue as NotificationReceiver>::is_empty, (q,), empty) ==> seg_queue_empty_answer(q.ids(), empty),
        call_ensures(NotificationQueue::len, (q,), n) ==> seg_queue_len_answer(q.ids(), n),
        call_ensures(<NotificationQueue as NotificationReceiver>::len, (q,), n) ==> seg_queue_len_answer(q.ids(), n),
        call_ensures(NotificationQueue::pop, (q,), popped) ==> call_ensures(SegQueue::<NotificationId>::pop, (&q.ids(),), popped),
        call_ensures(<NotificationQueue as NotificationReceiver>::receive, (q,), popped) ==> call_ensures(SegQueue::<NotificationId>::pop, (&q.ids(),), popped),
{
    if call_ensures(<NotificationQueue as Notifier>::notify, (q, id), notified) {
        let woken = choose|woken: io::Result<()>| q.waker_answer(woken) && notified == wake_report(woken);
        assert(call_ensures(Waker::wake, (&*q.waker(),), woken));
    }
}

/// What the bounded queue answers as a receiver are its own queue's answers:
/// `is_empty`, `len` and `pop` ask the queue of ids that pushes append to, and
/// the length never exceeds the capacity.
pub proof fn law_bounded_queue_answers_are_its_own(
    q: &BoundedNotificationQueue,
    empty: bool,
    n: usize,
    popped: Option<NotificationId>,
)
    ensures
        call_ensures(BoundedNotificationQueue::is_empty, (q,), empty) ==> array_queue_empty_answer(q.ids(), empty),
        call_ensures(<BoundedNotificationQueue as NotificationReceiver>::is_empty, (q,), empty) ==> array_queue_empty_answer(q.ids(), empty),
        call_ensures(BoundedNotificationQueue::len, (q,), n) ==> array_queue_len_answer(q.ids(), n) && n <= q.capacity(),
        call_ensures(<BoundedNotificationQueue as NotificationReceiver>::len, (q,), n) ==> array_queue_len_answer(q.ids(), n) && n <= q.capacity(),
        call_ensures(BoundedNotificationQueue::pop, (q,), popped) ==> call_ensures(ArrayQueue::<NotificationId>::pop, (&q.ids(),), popped),
        call_ensures(<BoundedNotificationQueue as NotificationReceiver>::receive, (q,), popped) ==> call_ensures(ArrayQueue::<NotificationId>::pop, (&q.ids(),), popped),
{
}

impl NotificationReceiver for BoundedNotificationQueue {
    fn receive(&self) -> (r: Option<NotificationId>)
        ensures
            self.pop_answer(r),
    {
        self.pop()
    }

    /// Never more than the capacity.
    fn len(&self) -> (n: usize)
        ensures
            self.length_answer(n),
            n <= self.capacity(),
    {
        self.len()
    }

    fn is_empty(&self) -> (r: bool)
        ensures
            self.emptiness_answer(r),
    {
        array_queue_is_empty(&self.queue)
    }
}

/// An error returned from the `BoundedNotificationQueue::push` function.
#[derive(Debug)]
pub enum NotificationError<T> {
    /// An IO error.
    Io(io::Error),
    /// Notification could not be sent because the queue is full.
    Full(T),
}

impl<T> From<io::Error> for NotificationError<T> {
    fn from(src: io::Error) -> (e: Self) {
        NotificationError::Io(src)
    }
}

impl<T> FromSpecImpl<io::Error> for NotificationError<T> {
    open spec fn obeys_from_spec() -> bool {
        true
    }

    open spec fn from_spec(src: io::Error) -> Self {
        NotificationError::Io(src)
    }
}

/// The message for each error: the I/O error's own message, or "Full".
fn format_sync_notification_error<T>(e: &NotificationError<T>) -> (s: String)
    ensures
        e is Full ==> s@ == "Full"@,
{
    match e {
        NotificationError::Io(io_err) => io_error_message(io_err),
        NotificationError::Full(..) => String::from_str("Full"),
    }
}

impl<T> NotificationError<T> {
    /// The message of the error, as its `Display` would write it.
    pub fn to_string(&self) -> (s: String)
        ensures
            self is Full ==> s@ == "Full"@,
    {
        format_sync_notification_error(self)
    }
}

} // verus!
