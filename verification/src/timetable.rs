//! The decision core of the scheduler: an ordered timetable of entries keyed by
//! their start tick and id, a set of ids whose cancellation was requested, and
//! the count of entries currently held.
//!
//! Ticks are nanoseconds on a monotonic clock; the thread that drives the
//! scheduler turns instants into ticks and performs the steps this core decides.
use vstd::prelude::*;
use std::collections::HashSet;

verus! {

broadcast use vstd::std_specs::hash::group_hash_axioms;

/// An entry of the timetable: due at tick `start`, identified by `id`, repeated
/// every `interval` ticks when it has one, carrying `payload` along.
pub struct TimedEntry<P> {
    pub start: u128,
    pub id: u32,
    pub interval: Option<u128>,
    pub payload: P,
}

impl<P> TimedEntry<P> {
    /// Whether this entry falls due before `other`: earlier start, or the same
    /// start and a smaller id.
    pub fn comes_before(&self, other: &TimedEntry<P>) -> (r: bool)
        ensures
            r == precedes(*self, *other),
    {
        self.start < other.start || (self.start == other.start && self.id < other.id)
    }
}

/// What the driving thread does next.
pub enum Step<P> {
    /// No entry is held: wait until new work arrives.
    Idle,
    /// The earliest entry is due in this many ticks: wait at most that long.
    Wait(u128),
    /// This entry is due and was not cancelled: run it, then hand it back
    /// through `reschedule`.
    Run(TimedEntry<P>),
    /// The earliest entry was due but its cancellation had been requested:
    /// it was removed for good, and its id left the set of cancelled ids.
    Cancelled(u32),
}

/// The tick of the instant from which a timetable's ticks are counted:
/// instants up to this many nanoseconds before it still get distinct ticks.
pub const BASE_TICK: u128 = 0x1_0000_0000_0000_0000u128;

/// The tick of an instant `nanos` nanoseconds after the base instant (when
/// `after`) or before it, held within the range of `u128`.
pub open spec fn tick_of(after: bool, nanos: u128) -> u128 {
    if after {
        if BASE_TICK + nanos <= u128::MAX { (BASE_TICK + nanos) as u128 } else { u128::MAX }
    } else {
        if nanos <= BASE_TICK { (BASE_TICK - nanos) as u128 } else { 0 }
    }
}

/// The tick of an instant `nanos` nanoseconds after the base instant (when
/// `after`) or before it.
pub fn tick_at(after: bool, nanos: u128) -> (t: u128)
    ensures
        t == tick_of(after, nanos),
{
    if after {
        BASE_TICK.saturating_add(nanos)
    } else if nanos <= BASE_TICK {
        BASE_TICK - nanos
    } else {
        0
    }
}

/// The tick at which an entry made at tick `created` first falls due: `delay`
/// ticks later, or at once when there is no delay; held within `u128`.
pub fn due_tick(created: u128, delay: Option<u128>) -> (t: u128)
    ensures
        t == match delay {
            None => created,
            Some(d) => if created + d <= u128::MAX { (created + d) as u128 } else { u128::MAX },
        },
{
    match delay {
        None => created,
        Some(d) => created.saturating_add(d),
    }
}

/// A number of ticks as whole seconds (at most `u64::MAX`) and the
/// nanoseconds beyond them.
pub fn split_ticks(ticks: u128) -> (r: (u64, u32))
    ensures
        r.0 == (if ticks / 1_000_000_000 <= u64::MAX { (ticks / 1_000_000_000) as int } else { u64::MAX as int }),
        r.1 == ticks % 1_000_000_000,
{
    let secs = ticks / 1_000_000_000;
    let nanos = ticks % 1_000_000_000;
    let secs: u64 = if secs <= u64::MAX as u128 { secs as u64 } else { u64::MAX };
    (secs, nanos as u32)
}

/// `a` comes strictly before `b`: earlier start, or same start and smaller id.
pub open spec fn precedes<P>(a: TimedEntry<P>, b: TimedEntry<P>) -> bool {
    a.start < b.start || (a.start == b.start && a.id < b.id)
}

/// The same key: same start and same id.
pub open spec fn same_key<P>(a: TimedEntry<P>, b: TimedEntry<P>) -> bool {
    a.start == b.start && a.id == b.id
}

/// Strictly increasing by key, hence no key occurs twice.
pub open spec fn sorted<P>(s: Seq<TimedEntry<P>>) -> bool {
    forall|i: int, j: int| 0 <= i < j < s.len() ==> precedes(#[trigger] s[i], #[trigger] s[j])
}

/// Some entry of `s` has the key of `e`.
pub open spec fn has_key<P>(s: Seq<TimedEntry<P>>, e: TimedEntry<P>) -> bool {
    exists|i: int| 0 <= i < s.len() && same_key(#[trigger] s[i], e)
}

/// How many leading entries of `s` come before `e`: in a sorted `s`, the
/// position where `e` belongs.
pub open spec fn insert_index<P>(s: Seq<TimedEntry<P>>, e: TimedEntry<P>) -> nat
    decreases s.len(),
{
    if s.len() == 0 || !precedes(s[0], e) {
        0
    } else {
        1 + insert_index(s.drop_first(), e)
    }
}

/// `s` with `e` put in its place.
pub open spec fn insert_sorted<P>(s: Seq<TimedEntry<P>>, e: TimedEntry<P>) -> Seq<TimedEntry<P>> {
    s.insert(insert_index(s, e) as int, e)
}

/// One more, wrapping around as an atomic counter does.
pub open spec fn count_up(c: u32) -> u32 {
    if c == u32::MAX { 0 } else { (c + 1) as u32 }
}

/// One less, wrapping around as an atomic counter does.
pub open spec fn count_down(c: u32) -> u32 {
    if c == 0 { u32::MAX } else { (c - 1) as u32 }
}

/// What the scheduler thread is given in one round: the cancellation
/// requests, the newly scheduled entry if any, the tick of the due check, and
/// the tick at which an entry it runs is handed back.
pub struct RoundInput<P> {
    pub cancels: Seq<u32>,
    pub new: Option<TimedEntry<P>>,
    pub now: u128,
    pub handed_back: u128,
}

/// The step the round `r` decides in state `m`.
pub open spec fn round_step<P>(m: TimetableModel<P>, r: RoundInput<P>) -> Step<P> {
    m.round(r.cancels, r.new, r.now).1
}

/// The abstract state of a timetable.
pub struct TimetableModel<P> {
    /// The entries held, ordered by key.
    pub entries: Seq<TimedEntry<P>>,
    /// Ids whose cancellation was requested and not yet carried out.
    pub cancelled: Set<u32>,
    /// Number of current entries, wrapping around as an atomic counter.
    pub count: u32,
}

impl<P> TimetableModel<P> {
    pub open spec fn wf(self) -> bool {
        sorted(self.entries)
    }

    /// The state after a cancellation request for `id`.
    pub open spec fn cancel(self, id: u32) -> Self {
        TimetableModel { entries: self.entries, cancelled: self.cancelled.insert(id), count: self.count }
    }

    /// The state after `e` was offered, and whether it was taken in: an entry
    /// whose key is already held is refused and the state is left as it was;
    /// otherwise `e` is put in its place and, when `counted`, the count rises.
    pub open spec fn offer(self, e: TimedEntry<P>, counted: bool) -> (Self, bool) {
        if has_key(self.entries, e) {
            (self, false)
        } else {
            (
                TimetableModel {
                    entries: insert_sorted(self.entries, e),
                    cancelled: self.cancelled,
                    count: if counted { count_up(self.count) } else { self.count },
                },
                true,
            )
        }
    }

    /// The state after the cancellation requests `ids`, in order.
    pub open spec fn cancel_all(self, ids: Seq<u32>) -> Self
        decreases ids.len(),
    {
        if ids.len() == 0 {
            self
        } else {
            self.cancel_all(ids.drop_last()).cancel(ids.last())
        }
    }

    /// One round of the scheduler: the cancellation requests `ids` first, then
    /// the newly scheduled entry if there is one, then the due check at `now`.
    pub open spec fn round(self, ids: Seq<u32>, new: Option<TimedEntry<P>>, now: u128) -> (Self, Step<P>) {
        let cancelled = self.cancel_all(ids);
        let offered = match new {
            Some(e) => cancelled.offer(e, true).0,
            None => cancelled,
        };
        offered.step(now)
    }

    /// The state after the due check at tick `now`, and the step decided.
    pub open spec fn step(self, now: u128) -> (Self, Step<P>) {
        if self.entries.len() == 0 {
            (self, Step::Idle)
        } else if now < self.entries[0].start {
            (self, Step::Wait((self.entries[0].start - now) as u128))
        } else if self.cancelled.contains(self.entries[0].id) {
            (
                TimetableModel {
                    entries: self.entries.drop_first(),
                    cancelled: self.cancelled.remove(self.entries[0].id),
                    count: count_down(self.count),
                },
                Step::Cancelled(self.entries[0].id),
            )
        } else {
            (
                TimetableModel {
                    entries: self.entries.drop_first(),
                    cancelled: self.cancelled,
                    count: self.count,
                },
                Step::Run(self.entries[0]),
            )
        }
    }

    /// The entry `e`, run at `now`, as it is put back: due `interval` ticks
    /// after `now`, all else kept.
    pub open spec fn rearmed(e: TimedEntry<P>, now: u128, interval: u128) -> TimedEntry<P> {
        TimedEntry { start: (now + interval) as u128, id: e.id, interval: e.interval, payload: e.payload }
    }

    /// The state after the run entry `e` was handed back at `now`: a
    /// repeating entry is put back (its count stays), unless its new key is
    /// held already; an entry not put back leaves, and the count falls by one.
    pub open spec fn reschedule(self, e: TimedEntry<P>, now: u128) -> Self {
        let gone = TimetableModel { entries: self.entries, cancelled: self.cancelled, count: count_down(self.count) };
        match e.interval {
            None => gone,
            Some(interval) => {
                let offered = self.offer(Self::rearmed(e, now, interval), false);
                if offered.1 { offered.0 } else { gone }
            },
        }
    }

    /// The state after a whole round `r`: the round itself, then handing back
    /// the entry it ran, if it ran one.
    pub open spec fn after_round(self, r: RoundInput<P>) -> Self {
        let (m1, step) = self.round(r.cancels, r.new, r.now);
        match step {
            Step::Run(e) => m1.reschedule(e, r.handed_back),
            _ => m1,
        }
    }

    /// The states before each round of `rounds` and after the last one.
    pub open spec fn states(self, rounds: Seq<RoundInput<P>>) -> Seq<Self>
        decreases rounds.len(),
    {
        if rounds.len() == 0 {
            seq![self]
        } else {
            let before = self.states(rounds.drop_last());
            before.push(before.last().after_round(rounds.last()))
        }
    }

    /// The count is the number of entries held, plus `running` entries taken
    /// out to run and not yet handed back, modulo 2^32 as an atomic counter.
    pub open spec fn counts(self, running: nat) -> bool {
        self.count as int == (self.entries.len() + running) % 0x1_0000_0000
    }
}

/// A requested cancellation is honoured: while its id is pending cancellation,
/// no step runs an entry with that id, and the id stays pending until a step
/// removes an entry with it.
pub proof fn law_cancelled_entry_never_runs<P>(m: TimetableModel<P>, now: u128, id: u32)
    requires
        m.wf(),
        m.cancelled.contains(id),
    ensures
        !(m.step(now).1 matches Step::Run(e) && e.id == id),
        (m.step(now).1 matches Step::Cancelled(c) && c == id) || m.step(now).0.cancelled.contains(id),
{
}

/// Entries run in order: the entry a step runs is due, and it comes before
/// every other entry that was held.
pub proof fn law_runs_earliest_due_entry<P>(m: TimetableModel<P>, now: u128)
    requires
        m.wf(),
        m.step(now).1 is Run,
    ensures
        m.step(now).1->Run_0.start <= now,
        forall|i: int| 0 < i < m.entries.len() ==> precedes(m.step(now).1->Run_0, #[trigger] m.entries[i]),
        m.step(now).0.entries == m.entries.drop_first(),
{
}

/// The scheduler waits exactly until the earliest entry falls due, and only
/// when no entry is due yet; it idles exactly when it holds no entry.
pub proof fn law_waits_until_earliest_start<P>(m: TimetableModel<P>, now: u128)
    requires
        m.wf(),
    ensures
        m.step(now).1 is Idle <==> m.entries.len() == 0,
        m.step(now).1 is Wait <==> (m.entries.len() > 0 && forall|i: int| 0 <= i < m.entries.len() ==> now < #[trigger] m.entries[i].start),
        m.step(now).1 matches Step::Wait(d) ==> d > 0 && now + d == m.entries[0].start,
        (m.step(now).1 is Idle || m.step(now).1 is Wait) ==> m.step(now).0 == m,
{
    if m.entries.len() > 0 && now < m.entries[0].start {
        assert forall|i: int| 0 <= i < m.entries.len() implies now < #[trigger] m.entries[i].start by {
            if i > 0 {
                assert(precedes(m.entries[0], m.entries[i]));
            }
        }
    }
}

/// A one-time entry runs at most once: once run and handed back, no entry
/// with its start and id is left.
pub proof fn law_one_time_entry_runs_once<P>(m: TimetableModel<P>, now: u128, later: u128, m2: TimetableModel<P>)
    requires
        m.wf(),
        m.step(now).1 matches Step::Run(e) && e.interval is None,
        m2 == m.step(now).0.reschedule(m.step(now).1->Run_0, later),
    ensures
        !has_key(m2.entries, m.step(now).1->Run_0),
        m2.entries == m.entries.drop_first(),
{
    let e = m.entries[0];
    assert forall|i: int| 0 <= i < m2.entries.len() implies !same_key(#[trigger] m2.entries[i], e) by {
        assert(m2.entries[i] == m.entries[i + 1]);
        assert(precedes(m.entries[0], m.entries[i + 1]));
    }
}

/// A repeating entry keeps running: once run and handed back at `later`, the
/// timetable holds an entry with its id due one interval after `later`; the
/// count is unchanged when it was put back.
pub proof fn law_repeating_entry_is_rearmed<P>(m: TimetableModel<P>, now: u128, later: u128, m2: TimetableModel<P>)
    requires
        m.wf(),
        m.step(now).1 matches Step::Run(e) && e.interval is Some,
        m2 == m.step(now).0.reschedule(m.step(now).1->Run_0, later),
    ensures
        has_key(m2.entries, TimetableModel::<P>::rearmed(m.step(now).1->Run_0, later, m.step(now).1->Run_0.interval->0)),
        !has_key(m.step(now).0.entries, TimetableModel::<P>::rearmed(m.step(now).1->Run_0, later, m.step(now).1->Run_0.interval->0))
            ==> m2.count == m.count,
{
    let e = m.entries[0];
    let r = TimetableModel::<P>::rearmed(e, later, e.interval->0);
    let m1 = m.step(now).0;
    let added = m1.offer(r, false).1;
    if added {
        lemma_insert_index_bound(m1.entries, r);
        let i = insert_index(m1.entries, r) as int;
        assert(same_key(m2.entries[i], r));
    }
}

/// Scheduling is idempotent on the key: offering an entry whose start and id
/// are already held changes nothing, so the count rises once.
pub proof fn law_schedule_twice_counts_once<P>(
    m: TimetableModel<P>,
    e: TimedEntry<P>,
    m1: TimetableModel<P>,
    added1: bool,
    m2: TimetableModel<P>,
    added2: bool,
)
    requires
        (m1, added1) == m.offer(e, true),
        (m2, added2) == m1.offer(e, true),
    ensures
        !added2,
        m2 == m1,
        m2.count == (if has_key(m.entries, e) { m.count } else { count_up(m.count) }),
{
    if added1 {
        lemma_insert_index_bound(m.entries, e);
        let i = insert_index(m.entries, e) as int;
        assert(same_key(m1.entries[i], e));
    }
}

/// The order of entries is a strict total order on keys: no entry comes
/// before itself or before one that comes before it, it is transitive, and
/// of two entries with different keys one comes before the other.
pub proof fn law_entry_order_is_strict_total<P>(a: TimedEntry<P>, b: TimedEntry<P>, c: TimedEntry<P>)
    ensures
        !precedes(a, a),
        precedes(a, b) ==> !precedes(b, a),
        precedes(a, b) && precedes(b, c) ==> precedes(a, c),
        !same_key(a, b) ==> precedes(a, b) || precedes(b, a),
        !precedes(a, b) && !precedes(b, a) <==> same_key(a, b),
{
}

/// Offering an entry keeps the timetable ordered, and a taken entry is held.
proof fn lemma_offer_keeps_wf<P>(m: TimetableModel<P>, e: TimedEntry<P>, counted: bool)
    requires
        m.wf(),
    ensures
        m.offer(e, counted).0.wf(),
        m.offer(e, counted).0.cancelled == m.cancelled,
        m.offer(e, counted).1 ==> m.offer(e, counted).0.entries.len() == m.entries.len() + 1,
        !m.offer(e, counted).1 ==> m.offer(e, counted).0 == m,
{
    if !has_key(m.entries, e) {
        let s = m.entries;
        lemma_insert_index_bound(s, e);
        let pos = insert_index(s, e) as int;
        lemma_insert_index_prefix(s, e);
        if pos < s.len() {
            if precedes(s[pos], e) {
                lemma_insert_index_stops(s, e);
            }
            if same_key(s[pos], e) {
                assert(has_key(s, e));
            }
        }
        lemma_insert_keeps_sorted(s, e, pos);
    }
}

/// Before the place of `e`, every entry comes before `e`.
proof fn lemma_insert_index_prefix<P>(s: Seq<TimedEntry<P>>, e: TimedEntry<P>)
    ensures
        forall|k: int| 0 <= k < insert_index(s, e) ==> precedes(#[trigger] s[k], e),
    decreases s.len(),
{
    if s.len() > 0 && precedes(s[0], e) {
        let t = s.drop_first();
        lemma_insert_index_prefix(t, e);
        lemma_insert_index_bound(t, e);
        assert forall|k: int| 0 <= k < insert_index(s, e) implies precedes(#[trigger] s[k], e) by {
            if k > 0 {
                assert(s[k] == t[k - 1]);
            }
        }
    }
}

/// At the place of `e`, the entry held there does not come before `e`.
proof fn lemma_insert_index_stops<P>(s: Seq<TimedEntry<P>>, e: TimedEntry<P>)
    requires
        insert_index(s, e) < s.len(),
    ensures
        !precedes(s[insert_index(s, e) as int], e),
    decreases s.len(),
{
    if s.len() > 0 && precedes(s[0], e) {
        let t = s.drop_first();
        lemma_insert_index_stops(t, e);
        assert(s[insert_index(s, e) as int] == t[insert_index(t, e) as int]);
    }
}

/// The cancellation requests of a round leave the entries and the count as
/// they were and add their ids to the pending ones.
proof fn lemma_cancel_all<P>(m: TimetableModel<P>, ids: Seq<u32>)
    ensures
        m.cancel_all(ids).entries == m.entries,
        m.cancel_all(ids).count == m.count,
        forall|id: u32| #[trigger] m.cancel_all(ids).cancelled.contains(id) <==> (m.cancelled.contains(id) || ids.contains(id)),
    decreases ids.len(),
{
    if ids.len() > 0 {
        lemma_cancel_all(m, ids.drop_last());
        assert forall|id: u32| #[trigger] m.cancel_all(ids).cancelled.contains(id) <==> (m.cancelled.contains(id) || ids.contains(id)) by {
            if ids.contains(id) && id != ids.last() {
                let k = choose|k: int| 0 <= k < ids.len() && ids[k] == id;
                assert(ids.drop_last()[k] == id);
            }
            if ids.drop_last().contains(id) {
                let k = choose|k: int| 0 <= k < ids.drop_last().len() && ids.drop_last()[k] == id;
                assert(ids[k] == id);
            }
            if id == ids.last() {
                assert(ids[ids.len() - 1] == id);
            }
        }
    }
}

/// Cancellations take precedence within a round: an entry whose id is
/// pending cancellation, or is cancelled in this very round, does not run in
/// it, whatever entry the round brings in.
pub proof fn law_round_cancellations_come_first<P>(
    m: TimetableModel<P>,
    ids: Seq<u32>,
    new: Option<TimedEntry<P>>,
    now: u128,
    id: u32,
)
    requires
        m.wf(),
        m.cancelled.contains(id) || ids.contains(id),
    ensures
        !(m.round(ids, new, now).1 matches Step::Run(e) && e.id == id),
        m.round(ids, new, now).0.wf(),
{
    lemma_cancel_all(m, ids);
    let c = m.cancel_all(ids);
    assert(c.cancelled.contains(id));
    match new {
        Some(e) => lemma_offer_keeps_wf(c, e, true),
        None => {},
    }
}

/// The count is the number of current entries: a fresh timetable counts its
/// entries, and so does every state reached from a counting one, where an
/// entry taken out to run counts until it is handed back.
pub proof fn law_count_is_number_of_entries<P>(m: TimetableModel<P>, e: TimedEntry<P>, id: u32, now: u128)
    requires
        m.wf(),
    ensures
        m.counts(0) ==> m.cancel(id).counts(0),
        m.counts(0) ==> m.offer(e, true).0.counts(0),
        m.counts(0) && !(m.step(now).1 is Run) ==> m.step(now).0.counts(0),
        m.counts(0) && m.step(now).1 is Run ==> m.step(now).0.counts(1),
        m.counts(1) && (e.interval matches Some(i) ==> now + i <= u128::MAX) ==> m.reschedule(e, now).counts(0),
{
    lemma_offer_keeps_wf(m, e, true);
    if let Some(i) = e.interval {
        lemma_offer_keeps_wf(m, TimetableModel::<P>::rearmed(e, now, i), false);
    }
}

/// The due check keeps the timetable ordered and keeps or drops pending ids
/// as `step` says.
proof fn lemma_step_keeps_wf<P>(m: TimetableModel<P>, now: u128)
    requires
        m.wf(),
    ensures
        m.step(now).0.wf(),
{
    if m.entries.len() > 0 && now >= m.entries[0].start {
        let t = m.entries.drop_first();
        assert forall|i: int, j: int| 0 <= i < j < t.len() implies precedes(#[trigger] t[i], #[trigger] t[j]) by {
            assert(precedes(m.entries[i + 1], m.entries[j + 1]));
        }
    }
}

/// A whole round keeps the timetable ordered; a pending id, or one cancelled
/// in the round, is still pending after it unless the round removed an entry
/// with that id.
proof fn lemma_after_round<P>(m: TimetableModel<P>, r: RoundInput<P>, id: u32)
    requires
        m.wf(),
    ensures
        m.after_round(r).wf(),
        (m.cancelled.contains(id) || r.cancels.contains(id)) && !(round_step(m, r) matches Step::Cancelled(c) && c == id)
            ==> m.after_round(r).cancelled.contains(id),
{
    lemma_cancel_all(m, r.cancels);
    let c = m.cancel_all(r.cancels);
    let o = match r.new {
        Some(e) => c.offer(e, true).0,
        None => c,
    };
    match r.new {
        Some(e) => lemma_offer_keeps_wf(c, e, true),
        None => {},
    }
    assert(o.wf());
    lemma_step_keeps_wf(o, r.now);
    if o.cancelled.contains(id) {
        law_cancelled_entry_never_runs(o, r.now, id);
    }
    let (m1, step) = o.step(r.now);
    if let Step::Run(e) = step {
        lemma_offer_keeps_wf(m1, e, false);
        if let Some(i) = e.interval {
            lemma_offer_keeps_wf(m1, TimetableModel::<P>::rearmed(e, r.handed_back, i), false);
        }
    }
}

/// The states of a run follow one another round by round.
proof fn lemma_states<P>(m: TimetableModel<P>, rounds: Seq<RoundInput<P>>)
    ensures
        m.states(rounds).len() == rounds.len() + 1,
        m.states(rounds)[0] == m,
        forall|k: int| 0 <= k < rounds.len() ==> #[trigger] m.states(rounds)[k + 1] == m.states(rounds)[k].after_round(rounds[k]),
    decreases rounds.len(),
{
    if rounds.len() > 0 {
        let prefix = rounds.drop_last();
        lemma_states(m, prefix);
        assert forall|k: int| 0 <= k < rounds.len() implies #[trigger] m.states(rounds)[k + 1] == m.states(rounds)[k].after_round(rounds[k]) by {
            if k < rounds.len() - 1 {
                assert(prefix[k] == rounds[k]);
            }
        }
    }
}

/// Every state of a run from an ordered timetable is ordered.
proof fn lemma_states_wf<P>(m: TimetableModel<P>, rounds: Seq<RoundInput<P>>, k: int)
    requires
        m.wf(),
        0 <= k <= rounds.len(),
    ensures
        m.states(rounds)[k].wf(),
    decreases k,
{
    lemma_states(m, rounds);
    if k > 0 {
        lemma_states_wf(m, rounds, k - 1);
        lemma_after_round(m.states(rounds)[k - 1], rounds[k - 1], 0);
        assert(m.states(rounds)[(k - 1) + 1] == m.states(rounds)[k - 1].after_round(rounds[k - 1]));
    }
}

/// A cancellation holds across rounds: once the id of an entry was cancelled
/// in round `i`, no round from `i` on runs an entry with that id, until a
/// round removes one with it.
pub proof fn law_cancellation_holds_across_rounds<P>(
    m: TimetableModel<P>,
    rounds: Seq<RoundInput<P>>,
    i: int,
    j: int,
    id: u32,
)
    requires
        m.wf(),
        0 <= i <= j < rounds.len(),
        rounds[i].cancels.contains(id),
        forall|k: int| i <= k < j ==> !(#[trigger] round_step(m.states(rounds)[k], rounds[k]) matches Step::Cancelled(c) && c == id),
    ensures
        !(round_step(m.states(rounds)[j], rounds[j]) matches Step::Run(e) && e.id == id),
    decreases j - i,
{
    lemma_states(m, rounds);
    lemma_states_wf(m, rounds, j);
    if j == i {
        law_round_cancellations_come_first(m.states(rounds)[j], rounds[j].cancels, rounds[j].new, rounds[j].now, id);
    } else {
        lemma_pending_across_rounds(m, rounds, i, j, id);
        law_round_cancellations_come_first(m.states(rounds)[j], rounds[j].cancels, rounds[j].new, rounds[j].now, id);
    }
}

/// After round `i` cancelled `id`, the id stays pending in every later state
/// until a round removes an entry with it.
proof fn lemma_pending_across_rounds<P>(m: TimetableModel<P>, rounds: Seq<RoundInput<P>>, i: int, j: int, id: u32)
    requires
        m.wf(),
        0 <= i < j <= rounds.len(),
        rounds[i].cancels.contains(id),
        forall|k: int| i <= k < j ==> !(#[trigger] round_step(m.states(rounds)[k], rounds[k]) matches Step::Cancelled(c) && c == id),
    ensures
        m.states(rounds)[j].cancelled.contains(id),
    decreases j - i,
{
    lemma_states(m, rounds);
    lemma_states_wf(m, rounds, j - 1);
    if j - 1 > i {
        lemma_pending_across_rounds(m, rounds, i, j - 1, id);
    }
    assert(!(round_step(m.states(rounds)[j - 1], rounds[j - 1]) matches Step::Cancelled(c) && c == id));
    lemma_after_round(m.states(rounds)[j - 1], rounds[j - 1], id);
    assert(m.states(rounds)[(j - 1) + 1] == m.states(rounds)[j - 1].after_round(rounds[j - 1]));
}

/// Every entry of `m` with id `x` starts at `start`; when `start` is none, `m`
/// holds no entry with id `x`.
pub open spec fn id_held_at<P>(m: TimetableModel<P>, x: u32, start: Option<u128>) -> bool {
    forall|k: int| 0 <= k < m.entries.len() && #[trigger] m.entries[k].id == x ==> start == Some(m.entries[k].start)
}

/// The round `r` brings in no new entry with id `x`.
pub open spec fn brings_none_of<P>(r: RoundInput<P>, x: u32) -> bool {
    !(r.new matches Some(e) && e.id == x)
}

/// An entry of `s` with `e` put in its place is `e` or an entry of `s`.
proof fn lemma_insert_sorted_elements<P>(s: Seq<TimedEntry<P>>, e: TimedEntry<P>, k: int)
    requires
        0 <= k < insert_sorted(s, e).len(),
    ensures
        insert_sorted(s, e).len() == s.len() + 1,
        insert_sorted(s, e)[k] == e || exists|j: int| 0 <= j < s.len() && insert_sorted(s, e)[k] == s[j],
{
    lemma_insert_index_bound(s, e);
    let i = insert_index(s, e) as int;
    if k < i {
        assert(insert_sorted(s, e)[k] == s[k]);
    } else if k > i {
        assert(insert_sorted(s, e)[k] == s[k - 1]);
    }
}

/// Offering an entry whose id is not `x` keeps what `id_held_at` says of `x`.
proof fn lemma_offer_keeps_id_held<P>(m: TimetableModel<P>, e: TimedEntry<P>, counted: bool, x: u32, a: Option<u128>)
    requires
        e.id != x,
        id_held_at(m, x, a),
    ensures
        id_held_at(m.offer(e, counted).0, x, a),
{
    if !has_key(m.entries, e) {
        let t = m.offer(e, counted).0;
        assert forall|k: int| 0 <= k < t.entries.len() && #[trigger] t.entries[k].id == x implies a == Some(t.entries[k].start) by {
            lemma_insert_sorted_elements(m.entries, e, k);
            if t.entries[k] != e {
                let j = choose|j: int| 0 <= j < m.entries.len() && t.entries[k] == m.entries[j];
                assert(m.entries[j].id == x);
            }
        }
    }
}

/// One round, as far as the entries with id `x` go: when the round brings no
/// new one, it runs one only if it is due and starts where `id_held_at` says;
/// the one it runs is then the only one, and afterwards only its rearmed self
/// is held, if it repeats. A round that runs none keeps what was said.
proof fn lemma_round_for_id<P>(m: TimetableModel<P>, r: RoundInput<P>, x: u32, a: Option<u128>)
    requires
        m.wf(),
        id_held_at(m, x, a),
        brings_none_of(r, x),
    ensures
        round_step(m, r) is Run && round_step(m, r)->Run_0.id == x ==> {
            let e = round_step(m, r)->Run_0;
            &&& a == Some(e.start)
            &&& e.start <= r.now
            &&& id_held_at(
                m.after_round(r),
                x,
                match e.interval {
                    None => None,
                    Some(d) => Some(TimetableModel::<P>::rearmed(e, r.handed_back, d).start),
                },
            )
        },
        !(round_step(m, r) matches Step::Run(e) && e.id == x) ==> id_held_at(m.after_round(r), x, a),
{
    lemma_cancel_all(m, r.cancels);
    let c = m.cancel_all(r.cancels);
    let o = match r.new {
        Some(e) => c.offer(e, true).0,
        None => c,
    };
    match r.new {
        Some(e) => {
            lemma_offer_keeps_wf(c, e, true);
            lemma_offer_keeps_id_held(c, e, true, x, a);
        },
        None => {},
    }
    let (m1, step) = o.step(r.now);
    assert(id_held_at(m1, x, a)) by {
        if m1 != o {
            assert forall|k: int| 0 <= k < m1.entries.len() && #[trigger] m1.entries[k].id == x implies a == Some(m1.entries[k].start) by {
                assert(m1.entries[k] == o.entries[k + 1]);
            }
        }
    }
    match step {
        Step::Run(e) => {
            assert(e == o.entries[0]);
            if e.id == x {
                assert(o.entries[0].id == x);
                // no other entry with id `x` is left: it would share `e`'s key
                let left = match e.interval {
                    None => None::<u128>,
                    Some(d) => Some(TimetableModel::<P>::rearmed(e, r.handed_back, d).start),
                };
                assert forall|k: int| 0 <= k < m1.entries.len() && #[trigger] m1.entries[k].id == x implies false by {
                    assert(m1.entries[k] == o.entries[k + 1]);
                    assert(o.entries[k + 1].id == x);
                    assert(precedes(o.entries[0], o.entries[k + 1]));
                }
                let after = m1.reschedule(e, r.handed_back);
                if let Some(d) = e.interval {
                    let re = TimetableModel::<P>::rearmed(e, r.handed_back, d);
                    if !has_key(m1.entries, re) {
                        assert forall|k: int| 0 <= k < after.entries.len() && #[trigger] after.entries[k].id == x implies left == Some(after.entries[k].start) by {
                            lemma_insert_sorted_elements(m1.entries, re, k);
                            if after.entries[k] != re {
                                let j = choose|j: int| 0 <= j < m1.entries.len() && after.entries[k] == m1.entries[j];
                                assert(m1.entries[j].id == x);
                            }
                        }
                    }
                }
                assert(id_held_at(after, x, left));
            } else {
                lemma_offer_keeps_id_held(m1, e, false, x, a);
                if let Some(d) = e.interval {
                    lemma_offer_keeps_id_held(m1, TimetableModel::<P>::rearmed(e, r.handed_back, d), false, x, a);
                }
            }
        },
        _ => {},
    }
}

/// Along a run, from round `from` to round `to`: while no round brings a new
/// entry with id `x` or runs one, what `id_held_at` says of `x` stays true.
proof fn lemma_id_held_along<P>(m: TimetableModel<P>, rounds: Seq<RoundInput<P>>, from: int, to: int, x: u32, a: Option<u128>)
    requires
        m.wf(),
        0 <= from <= to <= rounds.len(),
        id_held_at(m.states(rounds)[from], x, a),
        forall|k: int| from <= k < to ==> brings_none_of(#[trigger] rounds[k], x),
        forall|k: int| from <= k < to ==> !(#[trigger] round_step(m.states(rounds)[k], rounds[k]) matches Step::Run(e) && e.id == x),
    ensures
        id_held_at(m.states(rounds)[to], x, a),
    decreases to - from,
{
    lemma_states(m, rounds);
    if to > from {
        lemma_id_held_along(m, rounds, from, to - 1, x, a);
        lemma_states_wf(m, rounds, to - 1);
        assert(brings_none_of(rounds[to - 1], x));
        assert(!(round_step(m.states(rounds)[to - 1], rounds[to - 1]) matches Step::Run(e) && e.id == x));
        lemma_round_for_id(m.states(rounds)[to - 1], rounds[to - 1], x, a);
        assert(m.states(rounds)[(to - 1) + 1] == m.states(rounds)[to - 1].after_round(rounds[to - 1]));
    }
}

/// A one-time entry runs at most once over a whole run: once round `i` ran an
/// entry with id `x` and no interval, and no round from `i` on brings a new
/// entry with that id, no later round runs an entry with id `x`. At round `i`
/// the entries with id `x` must all start at one tick, as they do when they
/// come from one scheduling.
pub proof fn law_one_time_entry_runs_once_in_a_run<P>(
    m: TimetableModel<P>,
    rounds: Seq<RoundInput<P>>,
    i: int,
    j: int,
    x: u32,
    start: Option<u128>,
)
    requires
        m.wf(),
        0 <= i < j < rounds.len(),
        id_held_at(m.states(rounds)[i], x, start),
        forall|k: int| i <= k < rounds.len() ==> brings_none_of(#[trigger] rounds[k], x),
        round_step(m.states(rounds)[i], rounds[i]) matches Step::Run(e) && e.id == x && e.interval is None,
    ensures
        !(round_step(m.states(rounds)[j], rounds[j]) matches Step::Run(e) && e.id == x),
    decreases j - i,
{
    lemma_states(m, rounds);
    lemma_states_wf(m, rounds, i);
    lemma_round_for_id(m.states(rounds)[i], rounds[i], x, start);
    assert(m.states(rounds)[i + 1] == m.states(rounds)[i].after_round(rounds[i]));
    assert(id_held_at(m.states(rounds)[i + 1], x, None));
    lemma_none_held_along(m, rounds, i + 1, j, x);
    lemma_states_wf(m, rounds, j);
    lemma_round_for_id(m.states(rounds)[j], rounds[j], x, None);
}

/// While no round brings an entry with id `x`, a state holding none keeps
/// holding none and no round runs one.
proof fn lemma_none_held_along<P>(m: TimetableModel<P>, rounds: Seq<RoundInput<P>>, from: int, to: int, x: u32)
    requires
        m.wf(),
        0 <= from <= to <= rounds.len(),
        id_held_at(m.states(rounds)[from], x, None),
        forall|k: int| from <= k < to ==> brings_none_of(#[trigger] rounds[k], x),
    ensures
        id_held_at(m.states(rounds)[to], x, None),
    decreases to - from,
{
    lemma_states(m, rounds);
    if to > from {
        lemma_none_held_along(m, rounds, from, to - 1, x);
        lemma_states_wf(m, rounds, to - 1);
        assert(brings_none_of(rounds[to - 1], x));
        lemma_round_for_id(m.states(rounds)[to - 1], rounds[to - 1], x, None);
        assert(m.states(rounds)[(to - 1) + 1] == m.states(rounds)[to - 1].after_round(rounds[to - 1]));
    }
}

/// A repeating entry runs at least an interval apart: once round `i` ran an
/// entry with id `x` and interval `d` and handed it back at tick `h`, the next
/// round that runs an entry with id `x` does so at a tick of at least
/// `h + d`, as long as no round brings a new entry with that id. At round `i`
/// the entries with id `x` must all start at one tick, as they do when they
/// come from one scheduling.
pub proof fn law_repeating_entry_runs_an_interval_apart<P>(
    m: TimetableModel<P>,
    rounds: Seq<RoundInput<P>>,
    i: int,
    j: int,
    x: u32,
    start: Option<u128>,
)
    requires
        m.wf(),
        0 <= i < j < rounds.len(),
        id_held_at(m.states(rounds)[i], x, start),
        forall|k: int| i <= k <= j ==> brings_none_of(#[trigger] rounds[k], x),
        round_step(m.states(rounds)[i], rounds[i]) matches Step::Run(e) && e.id == x && e.interval is Some,
        rounds[i].handed_back + round_step(m.states(rounds)[i], rounds[i])->Run_0.interval->0 <= u128::MAX,
        forall|k: int| i < k < j ==> !(#[trigger] round_step(m.states(rounds)[k], rounds[k]) matches Step::Run(e) && e.id == x),
    ensures
        round_step(m.states(rounds)[j], rounds[j]) matches Step::Run(e) && e.id == x
            ==> rounds[i].handed_back + round_step(m.states(rounds)[i], rounds[i])->Run_0.interval->0 <= rounds[j].now,
{
    let e = round_step(m.states(rounds)[i], rounds[i])->Run_0;
    let d = e.interval->0;
    let next = Some(TimetableModel::<P>::rearmed(e, rounds[i].handed_back, d).start);
    lemma_states(m, rounds);
    lemma_states_wf(m, rounds, i);
    lemma_round_for_id(m.states(rounds)[i], rounds[i], x, start);
    assert(m.states(rounds)[i + 1] == m.states(rounds)[i].after_round(rounds[i]));
    lemma_id_held_along(m, rounds, i + 1, j, x, next);
    lemma_states_wf(m, rounds, j);
    lemma_round_for_id(m.states(rounds)[j], rounds[j], x, next);
}

/// The entries of a scheduler in the order they fall due, with pending
/// cancellations and the count of held entries.
pub struct Timetable<P> {
    entries: Vec<TimedEntry<P>>,
    cancelled: HashSet<u32>,
    count: u32,
}

impl<P> View for Timetable<P> {
    type V = TimetableModel<P>;

    closed spec fn view(&self) -> TimetableModel<P> {
        TimetableModel { entries: self.entries@, cancelled: self.cancelled@, count: self.count }
    }
}

/// The place of `e` lies within `s` or just past its end.
proof fn lemma_insert_index_bound<P>(s: Seq<TimedEntry<P>>, e: TimedEntry<P>)
    ensures
        insert_index(s, e) <= s.len(),
    decreases s.len(),
{
    if s.len() > 0 && precedes(s[0], e) {
        lemma_insert_index_bound(s.drop_first(), e);
    }
}

/// The first position whose entry does not come before `e` is `e`'s place.
proof fn lemma_insert_index_at<P>(s: Seq<TimedEntry<P>>, e: TimedEntry<P>, pos: int)
    requires
        0 <= pos <= s.len(),
        forall|k: int| 0 <= k < pos ==> precedes(#[trigger] s[k], e),
        pos < s.len() ==> !precedes(s[pos], e),
    ensures
        insert_index(s, e) == pos,
    decreases pos,
{
    if pos > 0 {
        let t = s.drop_first();
        assert forall|k: int| 0 <= k < pos - 1 implies precedes(#[trigger] t[k], e) by {
            assert(t[k] == s[k + 1]);
        }
        if pos - 1 < t.len() {
            assert(t[pos - 1] == s[pos]);
        }
        lemma_insert_index_at(t, e, pos - 1);
        assert(precedes(s[0], e));
    }
}

/// Where `e` goes in the sorted `s`: before `pos` every entry precedes `e`,
/// and from `pos` on none does.
proof fn lemma_insert_keeps_sorted<P>(s: Seq<TimedEntry<P>>, e: TimedEntry<P>, pos: int)
    requires
        sorted(s),
        0 <= pos <= s.len(),
        forall|k: int| 0 <= k < pos ==> precedes(#[trigger] s[k], e),
        pos < s.len() ==> precedes(e, s[pos]),
    ensures
        sorted(s.insert(pos, e)),
        !has_key(s, e),
{
    let t = s.insert(pos, e);
    assert forall|i: int, j: int| 0 <= i < j < t.len() implies precedes(#[trigger] t[i], #[trigger] t[j]) by {
        if j < pos {
        } else if j == pos {
        } else if i < pos {
            assert(precedes(s[i], e));
            assert(precedes(e, s[pos]));
            if j - 1 > pos {
                assert(precedes(s[pos], s[j - 1]));
            }
        } else if i == pos {
            if j - 1 > pos {
                assert(precedes(s[pos], s[j - 1]));
            }
        } else {
            assert(precedes(s[i - 1], s[j - 1]));
        }
    }
    assert forall|i: int| 0 <= i < s.len() implies !same_key(#[trigger] s[i], e) by {
        if i < pos {
            assert(precedes(s[i], e));
        } else {
            assert(precedes(e, s[pos]));
            if i > pos {
                assert(precedes(s[pos], s[i]));
            }
        }
    }
}

impl<P> Timetable<P> {
    /// An empty timetable: no entries, no cancellations, a count of zero.
    pub fn new() -> (t: Self)
        ensures
            t@.entries == Seq::<TimedEntry<P>>::empty(),
            t@.cancelled == Set::<u32>::empty(),
            t@.count == 0,
            t@.wf(),
    {
        Timetable { entries: Vec::new(), cancelled: HashSet::new(), count: 0 }
    }

    /// Number of current entries: raised by each entry that `schedule` takes
    /// in, lowered by each cancelled entry that `step` removes and by each run
    /// entry that `reschedule` does not put back.
    pub fn entry_count(&self) -> (c: u32)
        ensures
            c == self@.count,
    {
        self.count
    }

    /// Number of entries in the timetable.
    pub fn len(&self) -> (n: usize)
        ensures
            n == self@.entries.len(),
    {
        self.entries.len()
    }

    /// Records that the entries with this id are not to run again.
    pub fn cancel(&mut self, id: u32)
        requires
            old(self)@.wf(),
        ensures
            final(self)@ == old(self)@.cancel(id),
            final(self)@.wf(),
    {
        self.cancelled.insert(id);
    }

    /// Puts `e` in its place unless an entry with the same start and id is
    /// held already; `counted` says whether a taken entry raises the count.
    fn offer(&mut self, e: TimedEntry<P>, counted: bool) -> (added: bool)
        requires
            old(self)@.wf(),
        ensures
            (final(self)@, added) == old(self)@.offer(e, counted),
            final(self)@.wf(),
    {
        let ghost s = self.entries@;
        let n = self.entries.len();
        let mut i: usize = 0;
        while i < n && self.entries[i].comes_before(&e)
            invariant
                n == self.entries.len(),
                self.entries@ == s,
                sorted(s),
                0 <= i <= n,
                forall|k: int| 0 <= k < i ==> precedes(#[trigger] s[k], e),
            decreases n - i,
        {
            i = i + 1;
        }
        if i < n && self.entries[i].start == e.start && self.entries[i].id == e.id {
            assert(same_key(s[i as int], e));
            false
        } else {
            proof {
                lemma_insert_keeps_sorted(s, e, i as int);
                lemma_insert_index_at(s, e, i as int);
            }
            self.entries.insert(i, e);
            if counted {
                self.count = if self.count == u32::MAX { 0 } else { self.count + 1 };
            }
            true
        }
    }

    /// Takes in a newly scheduled entry unless an entry with the same start and
    /// id is held already; a taken entry raises the count by one.
    pub fn schedule(&mut self, e: TimedEntry<P>) -> (added: bool)
        requires
            old(self)@.wf(),
        ensures
            (final(self)@, added) == old(self)@.offer(e, true),
            final(self)@.wf(),
    {
        self.offer(e, true)
    }

    /// One round of the scheduler thread: the cancellation requests `ids` in
    /// order, then the newly scheduled entry if there is one, then the due
    /// check at `now`. Cancellations that arrive in a round take precedence
    /// over the entries due in it.
    pub fn round(&mut self, ids: &Vec<u32>, new: Option<TimedEntry<P>>, now: u128) -> (step: Step<P>)
        requires
            old(self)@.wf(),
        ensures
            (final(self)@, step) == old(self)@.round(ids@, new, now),
            final(self)@.wf(),
    {
        let n = ids.len();
        let mut i: usize = 0;
        while i < n
            invariant
                n == ids@.len(),
                0 <= i <= n,
                self@ == old(self)@.cancel_all(ids@.take(i as int)),
                self@.wf(),
            decreases n - i,
        {
            proof {
                assert(ids@.take(i + 1).drop_last() == ids@.take(i as int));
            }
            self.cancel(ids[i]);
            i = i + 1;
        }
        proof {
            assert(ids@.take(n as int) == ids@);
        }
        match new {
            Some(e) => {
                self.schedule(e);
            },
            None => {},
        }
        self.step(now)
    }

    /// Decides what happens at tick `now`. Cancellations take precedence: a due
    /// entry whose id was cancelled is removed without running.
    pub fn step(&mut self, now: u128) -> (step: Step<P>)
        requires
            old(self)@.wf(),
        ensures
            (final(self)@, step) == old(self)@.step(now),
            final(self)@.wf(),
    {
        if self.entries.len() == 0 {
            return Step::Idle;
        }
        let start = self.entries[0].start;
        if now < start {
            return Step::Wait(start - now);
        }
        let e = self.entries.remove(0);
        assert(self.entries@ == old(self)@.entries.drop_first());
        if self.cancelled.contains(&e.id) {
            let id = e.id;
            self.cancelled.remove(&id);
            self.count = if self.count == 0 { u32::MAX } else { self.count - 1 };
            Step::Cancelled(id)
        } else {
            Step::Run(e)
        }
    }

    /// Hands back an entry that was run at tick `now`: a repeating entry is put
    /// back due `interval` ticks after `now` (the count is left alone); a
    /// one-time entry, or one whose new start and id are held already, leaves
    /// and the count falls by one.
    pub fn reschedule(&mut self, e: TimedEntry<P>, now: u128)
        requires
            old(self)@.wf(),
            e.interval matches Some(interval) ==> now + interval <= u128::MAX,
        ensures
            final(self)@ == old(self)@.reschedule(e, now),
            final(self)@.wf(),
    {
        let added = match e.interval {
            None => false,
            Some(interval) => {
                let rearmed = TimedEntry { start: now + interval, id: e.id, interval: e.interval, payload: e.payload };
                self.offer(rearmed, false)
            },
        };
        if !added {
            self.count = if self.count == 0 { u32::MAX } else { self.count - 1 };
        }
    }
}

} // verus!
