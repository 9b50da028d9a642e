//! Entries for the scheduler, their ids, and the scheduler's status.
use vstd::prelude::*;
use std::time::{Duration, Instant};
use crate::queue::{NotificationError, NotificationQueue, Notifier};
use crossbeam_queue::SegQueue;
use mio::Waker;
use crate::timetable::Step;
use crate::{nth_after, IdSequence, NotificationId};
use std::sync::Arc;

verus! {

#[verifier::external_type_specification]
#[verifier::external_body]
pub struct ExInstant(Instant);

/// `Instant::now` reads the monotonic clock; nothing is stated of the reading.
pub assume_specification[ Instant::now ]() -> Instant;

/// `Instant` is `Copy`: its clone is the same instant.
pub assume_specification[ <Instant as Clone>::clone ](t: &Instant) -> (r: Instant)
    ensures
        r == *t,
;

/// Id associated with an entry
#[derive(Copy, Clone, Debug, PartialEq, Eq, Hash, PartialOrd, Ord, Structural)]
pub struct ScheduleEntryId(u32);

impl View for ScheduleEntryId {
    type V = u32;

    closed spec fn view(&self) -> u32 {
        self.0
    }
}

impl ScheduleEntryId {
    /// Takes the next id from `ids`; ids taken from one sequence are unique.
    pub fn gen_next(ids: &mut IdSequence) -> (id: ScheduleEntryId)
        ensures
            id@ == old(ids)@,
            final(ids)@ == nth_after(old(ids)@, 1),
    {
        ScheduleEntryId(ids.take())
    }

    /// Returns id
    pub fn id(&self) -> (v: u32)
        ensures
            v == self@,
    {
        self.0
    }
}

/// Two entry ids are the same exactly when their values are.
pub proof fn law_schedule_entry_id_is_its_value(a: ScheduleEntryId, b: ScheduleEntryId)
    ensures
        (a == b) <==> (a@ == b@),
{
}

/// Entry ids taken one after another from one sequence are all different:
/// when the `k`-th of `ids` has the value the sequence hands out after `k`
/// calls, and there are at most 2^32 of them, no two are equal.
pub proof fn law_successive_schedule_entry_ids_differ(start: u32, ids: Seq<ScheduleEntryId>)
    requires
        ids.len() <= 0x1_0000_0000,
        forall|k: int| 0 <= k < ids.len() ==> #[trigger] ids[k]@ == nth_after(start, k as nat),
    ensures
        forall|a: int, b: int| 0 <= a < b < ids.len() ==> #[trigger] ids[a] != #[trigger] ids[b],
{
    assert forall|a: int, b: int| 0 <= a < b < ids.len() implies #[trigger] ids[a] != #[trigger] ids[b] by {
        crate::law_ids_are_distinct(start, a as nat, b as nat);
        assert(ids[a]@ == nth_after(start, a as nat));
        assert(ids[b]@ == nth_after(start, b as nat));
    }
}

/// What an entry holds.
pub struct ScheduleEntryModel<C> {
    /// When the entry was made.
    pub created: Instant,
    /// How long after `created` the entry first falls due; none means at once.
    pub delay: Option<Duration>,
    /// The interval with which to run the callback; none means a single run.
    pub interval: Option<Duration>,
    pub callback: C,
    pub name: Option<String>,
    /// The value of the entry's id.
    pub id: u32,
}

/// Entry associated with callback
#[derive(Clone)]
pub struct ScheduleEntry<C> {
    created: Instant,
    delay: Option<Duration>,
    /// The interval with which to run the callback. No interval means only one-time run
    interval: Option<Duration>,
    callback: C,
    /// The assigned name of the entry for debugging purposes
    pub name: Option<String>,
    /// Entry Id
    pub id: ScheduleEntryId,
}

impl<C> View for ScheduleEntry<C> {
    type V = ScheduleEntryModel<C>;

    closed spec fn view(&self) -> ScheduleEntryModel<C> {
        ScheduleEntryModel {
            created: self.created,
            delay: self.delay,
            interval: self.interval,
            callback: self.callback,
            name: self.name,
            id: self.id@,
        }
    }
}

impl<C> ScheduleEntry<C> {
    /// What an entry made at `now` holds: it falls due first `delay` after
    /// `now` (at `now` when there is none), repeats every `interval` when it
    /// has one, and has the id `id`.
    pub open spec fn made(
        now: Instant,
        delay: Option<Duration>,
        interval: Option<Duration>,
        name: Option<String>,
        callback: C,
        id: u32,
    ) -> ScheduleEntryModel<C> {
        ScheduleEntryModel { created: now, delay, interval, callback, name, id }
    }

    /// Creates an entry to run the callback repeatedly with a fixed delay,
    /// first after `initial_delay` (at once when there is none), with an id
    /// taken from `ids`; the entry is made at the clock's current reading.
    pub fn with_interval(
        interval: Duration,
        initial_delay: Option<Duration>,
        name: Option<String>,
        callback: C,
        ids: &mut IdSequence,
    ) -> (entry: ScheduleEntry<C>)
        ensures
            exists|now: Instant| entry@ == ScheduleEntry::<C>::made(now, initial_delay, Some(interval), name, callback, old(ids)@),
            final(ids)@ == nth_after(old(ids)@, 1),
    {
        Self::with_interval_at(Instant::now(), interval, initial_delay, name, callback, ids)
    }

    /// Creates an entry made at `now` to run the callback repeatedly with a
    /// fixed delay, first `initial_delay` after `now` (at `now` when there is
    /// none), with an id taken from `ids`.
    pub fn with_interval_at(
        now: Instant,
        interval: Duration,
        initial_delay: Option<Duration>,
        name: Option<String>,
        callback: C,
        ids: &mut IdSequence,
    ) -> (entry: ScheduleEntry<C>)
        ensures
            entry@ == ScheduleEntry::<C>::made(now, initial_delay, Some(interval), name, callback, old(ids)@),
            final(ids)@ == nth_after(old(ids)@, 1),
    {
        ScheduleEntry {
            created: now,
            delay: initial_delay,
            interval: Some(interval),
            callback,
            name,
            id: ScheduleEntryId::gen_next(ids),
        }
    }

    /// Creates an entry to run the callback only once after a given delay,
    /// with an id taken from `ids`; the entry is made at the clock's current
    /// reading.
    pub fn one_time(delay: Duration, name: Option<String>, callback: C, ids: &mut IdSequence) -> (entry:
        ScheduleEntry<C>)
        ensures
            exists|now: Instant| entry@ == ScheduleEntry::<C>::made(now, Some(delay), None, name, callback, old(ids)@),
            final(ids)@ == nth_after(old(ids)@, 1),
    {
        Self::one_time_at(Instant::now(), delay, name, callback, ids)
    }

    /// Creates an entry made at `now` to run the callback only once, `delay`
    /// after `now`, with an id taken from `ids`.
    pub fn one_time_at(now: Instant, delay: Duration, name: Option<String>, callback: C, ids: &mut IdSequence) -> (entry:
        ScheduleEntry<C>)
        ensures
            entry@ == ScheduleEntry::<C>::made(now, Some(delay), None, name, callback, old(ids)@),
            final(ids)@ == nth_after(old(ids)@, 1),
    {
        ScheduleEntry {
            created: now,
            delay: Some(delay),
            interval: None,
            callback,
            name,
            id: ScheduleEntryId::gen_next(ids),
        }
    }

    /// The instant the entry was made; it falls due first `delay()` later.
    pub fn created(&self) -> (t: Instant)
        ensures
            t == self@.created,
    {
        self.created
    }

    /// How long after its creation the entry first falls due; none means at once.
    pub fn delay(&self) -> (d: Option<Duration>)
        ensures
            d == self@.delay,
    {
        self.delay
    }

    /// The interval of a repeating entry; none for a one-time entry.
    pub fn interval(&self) -> (i: Option<Duration>)
        ensures
            i == self@.interval,
    {
        self.interval
    }

    /// The callback the entry runs.
    pub fn callback(&self) -> (c: &C)
        ensures
            *c == self@.callback,
    {
        &self.callback
    }

    /// Swaps the callback for `callback`, keeping all else, and hands back the
    /// one taken out.
    pub fn with_callback<D>(self, callback: D) -> (r: (ScheduleEntry<D>, C))
        ensures
            r.0@.created == self@.created,
            r.0@.delay == self@.delay,
            r.0@.interval == self@.interval,
            r.0@.callback == callback,
            r.0@.name == self@.name,
            r.0@.id == self@.id,
            r.1 == self@.callback,
    {
        let ScheduleEntry { created, delay, interval, callback: taken, name, id } = self;
        (ScheduleEntry { created, delay, interval, callback, name, id }, taken)
    }
}

/// A notification to deliver: telling `notifier` of `id`. It is what the
/// entries of a notification scheduler run.
pub struct Notification<N: Notifier + ?Sized> {
    notifier: Arc<N>,
    id: NotificationId,
}

impl<N: Notifier + ?Sized> Notification<N> {
    /// The notifier told.
    pub closed spec fn notifier(&self) -> Arc<N> {
        self.notifier
    }

    /// The id it is told of.
    pub closed spec fn id(&self) -> NotificationId {
        self.id
    }

    /// A notification of `id` to `notifier`.
    pub fn new(notifier: Arc<N>, id: NotificationId) -> (n: Notification<N>)
        ensures
            n.notifier() == notifier,
            n.id() == id,
    {
        Notification { notifier, id }
    }

    /// Tells the notifier of the id; the result is the notifier's answer.
    pub fn deliver(&self) -> (r: crate::queue::Result)
        ensures
            self.notifier().answers(self.id(), r),
            call_ensures(N::notify, (&*self.notifier(), self.id()), r),
    {
        self.notifier.notify(self.id)
    }
}

/// What a delivery reports is what telling its notifier of its id answers:
/// an answer `notify` gives on that notifier and id, and so one the notifier
/// may give.
pub proof fn law_delivery_reports_the_notifiers_answer<N: Notifier + ?Sized>(
    n: Notification<N>,
    r: crate::queue::Result,
)
    requires
        call_ensures(Notification::<N>::deliver, (&n,), r),
    ensures
        call_ensures(N::notify, (&*n.notifier(), n.id()), r),
        n.notifier().answers(n.id(), r),
{
}

/// A delivery to an unbounded notification queue hands the id to that queue's
/// own queue of ids, and reports `Ok` exactly when waking the queue's waker
/// succeeded, its I/O error otherwise.
pub proof fn law_delivery_to_a_queue_queues_the_id(n: Notification<NotificationQueue>, r: crate::queue::Result)
    requires
        call_ensures(Notification::<NotificationQueue>::deliver, (&n,), r),
    ensures
        call_ensures(SegQueue::<NotificationId>::push, (&n.notifier().ids(), n.id()), ()),
        exists|woken: std::io::Result<()>| #[trigger] call_ensures(Waker::wake, (&*n.notifier().waker(),), woken)
            && (r is Ok <==> woken is Ok)
            && (woken matches Err(e) ==> r == Err::<(), NotificationError<NotificationId>>(NotificationError::Io(e))),
{
    crate::queue::law_queue_answers_are_its_own(&*n.notifier(), n.id(), Ok(()), r, true, 0, None);
}

/// The decimal digit `d` as a character.
pub open spec fn digit_char(d: nat) -> char {
    ((48 + d) as u32) as char
}

/// The decimal writing of `n`, without sign or leading zeros.
pub open spec fn decimal(n: nat) -> Seq<char>
    decreases n,
{
    if n < 10 {
        seq![digit_char(n)]
    } else {
        decimal(n / 10).push(digit_char(n % 10))
    }
}

/// The decimal digit `d` as a one-character string.
fn digit_str(d: u32) -> (s: &'static str)
    requires
        d < 10,
    ensures
        s@ == seq![digit_char(d as nat)],
{
    proof {
        reveal_strlit("0");
        reveal_strlit("1");
        reveal_strlit("2");
        reveal_strlit("3");
        reveal_strlit("4");
        reveal_strlit("5");
        reveal_strlit("6");
        reveal_strlit("7");
        reveal_strlit("8");
        reveal_strlit("9");
    }
    match d {
        0 => "0",
        1 => "1",
        2 => "2",
        3 => "3",
        4 => "4",
        5 => "5",
        6 => "6",
        7 => "7",
        8 => "8",
        _ => "9",
    }
}

/// Appends the decimal writing of `n` to `s`.
fn append_decimal(s: &mut String, n: u32)
    ensures
        final(s)@ == old(s)@ + decimal(n as nat),
    decreases n,
{
    if n >= 10 {
        append_decimal(s, n / 10);
    }
    s.append(digit_str(n % 10));
    assert(decimal(n as nat) == if n < 10 { seq![digit_char(n as nat)] } else { decimal((n / 10) as nat).push(digit_char((n % 10) as nat)) });
}

/// The prefix of every scheduler thread's name.
pub open spec fn thread_name_prefix() -> Seq<char> {
    "mio-misc-scheduler"@
}

/// The name of the thread of the `serial`-th scheduler made: the prefix, the
/// given name if any, and the serial number, joined by dashes.
pub fn scheduler_thread_name(name: Option<String>, serial: u32) -> (s: String)
    ensures
        s@ == match name {
            Some(n) => thread_name_prefix() + "-"@ + n@ + "-"@ + decimal(serial as nat),
            None => thread_name_prefix() + "-"@ + decimal(serial as nat),
        },
{
    let mut s = String::from_str("mio-misc-scheduler");
    s.append("-");
    match name {
        Some(n) => {
            s.append(n.as_str());
            s.append("-");
        },
        None => {},
    }
    append_decimal(&mut s, serial);
    s
}

/// Scheduler Status
#[derive(Copy, Clone, Debug, PartialEq, Eq, Hash, PartialOrd, Ord, Structural)]
pub enum SchedulerStatus {
    /// Currently executing an entry
    Active,
    /// Waiting for new entries to be scheduled
    Parked,
    /// Waiting to execute entries in the queue at the scheduled intervals
    ParkedTimeout,
}

/// The status a scheduler shows while it carries out `step`.
pub open spec fn status_of<P>(step: Step<P>) -> SchedulerStatus {
    match step {
        Step::Idle => SchedulerStatus::Parked,
        Step::Wait(_) => SchedulerStatus::ParkedTimeout,
        _ => SchedulerStatus::Active,
    }
}

impl SchedulerStatus {
    /// The status while `step` is carried out: parked without a timeout when
    /// there is nothing to run, parked with one while the earliest entry is
    /// not yet due, active otherwise.
    pub fn during<P>(step: &Step<P>) -> (s: SchedulerStatus)
        ensures
            s == status_of(*step),
    {
        match step {
            Step::Idle => SchedulerStatus::Parked,
            Step::Wait(_) => SchedulerStatus::ParkedTimeout,
            _ => SchedulerStatus::Active,
        }
    }
}

/// A scheduler is parked without a timeout exactly when it holds no entry, and
/// parked with a timeout exactly when it holds entries none of which is due.
pub proof fn law_status_follows_timetable<P>(m: crate::timetable::TimetableModel<P>, now: u128)
    requires
        m.wf(),
    ensures
        status_of(m.step(now).1) == SchedulerStatus::Parked <==> m.entries.len() == 0,
        status_of(m.step(now).1) == SchedulerStatus::ParkedTimeout <==> (m.entries.len() > 0
            && forall|i: int| 0 <= i < m.entries.len() ==> now < #[trigger] m.entries[i].start),
{
    crate::timetable::law_waits_until_earliest_start(m, now);
}

} // verus!
