//! Queues, channels and a scheduler that deliver notifications to a `mio` event loop.
use vstd::prelude::*;

pub mod channel;
pub mod queue;
pub mod scheduler;
pub mod timetable;

verus! {

/// The value an `IdSequence` that stood at `start` hands out after `k` more
/// calls, wrapping around past `u32::MAX` as an atomic counter does.
pub open spec fn nth_after(start: u32, k: nat) -> u32 {
    ((start as nat + k) % 0x1_0000_0000) as u32
}

/// A source of ids: each call hands out the value it holds and moves on to the
/// next one, wrapping around past `u32::MAX`. Ids handed out by one sequence
/// are unique as long as fewer than 2^32 are taken.
pub struct IdSequence {
    next: u32,
}

impl View for IdSequence {
    type V = u32;

    /// The value the next call hands out.
    closed spec fn view(&self) -> u32 {
        self.next
    }
}

impl IdSequence {
    /// A sequence whose first id is 1.
    pub fn new() -> (s: IdSequence)
        ensures
            s@ == 1,
    {
        IdSequence { next: 1 }
    }

    /// Hands out the current value and advances by one.
    pub(crate) fn take(&mut self) -> (v: u32)
        ensures
            v == old(self)@,
            final(self)@ == nth_after(old(self)@, 1),
    {
        let v = self.next;
        self.next = if v == u32::MAX { 0 } else { v + 1 };
        v
    }
}

/// Taking ids one after another walks along `nth_after`: `b` calls after `a`
/// calls are `a + b` calls.
pub proof fn law_id_steps_compose(start: u32, a: nat, b: nat)
    ensures
        nth_after(nth_after(start, a), b) == nth_after(start, a + b),
{
    let m: int = 0x1_0000_0000;
    vstd::arithmetic::div_mod::lemma_add_mod_noop(start as int + a, b as int, m);
    vstd::arithmetic::div_mod::lemma_mod_twice(start as int + a, m);
    vstd::arithmetic::div_mod::lemma_add_mod_noop((start as int + a) % m, b as int, m);
}

/// Ids are unique: the ids a sequence hands out in fewer than 2^32 successive
/// calls are pairwise distinct.
pub proof fn law_ids_are_distinct(start: u32, i: nat, j: nat)
    requires
        i < j < 0x1_0000_0000,
    ensures
        nth_after(start, i) != nth_after(start, j),
{
    let m: int = 0x1_0000_0000;
    let x = start as int + i;
    let y = start as int + j;
    vstd::arithmetic::div_mod::lemma_fundamental_div_mod(x, m);
    vstd::arithmetic::div_mod::lemma_fundamental_div_mod(y, m);
    if x % m == y % m {
        assert(y - x == m * (y / m) - m * (x / m));
        assert(m * (y / m) - m * (x / m) == m * (y / m - x / m)) by (nonlinear_arith);
        assert(0 < y - x < m);
        if y / m - x / m >= 1 {
            assert(m * (y / m - x / m) >= m) by (nonlinear_arith)
                requires y / m - x / m >= 1, m > 0;
        } else {
            assert(m * (y / m - x / m) <= 0) by (nonlinear_arith)
                requires y / m - x / m <= 0, m > 0;
        }
    }
}

/// Used while sending notifications
#[derive(Copy, Clone, Debug, PartialEq, Eq, Hash, Structural)]
pub struct NotificationId(u32);

impl View for NotificationId {
    type V = u32;

    closed spec fn view(&self) -> u32 {
        self.0
    }
}

/// Two notification ids are the same exactly when their values are.
pub proof fn law_notification_id_is_its_value(a: NotificationId, b: NotificationId)
    ensures
        (a == b) <==> (a@ == b@),
{
}

/// Ids taken one after another from one sequence are all different: when the
/// `k`-th of `ids` has the value the sequence hands out after `k` calls, and
/// there are at most 2^32 of them, no two are equal.
pub proof fn law_successive_notification_ids_differ(start: u32, ids: Seq<NotificationId>)
    requires
        ids.len() <= 0x1_0000_0000,
        forall|k: int| 0 <= k < ids.len() ==> #[trigger] ids[k]@ == nth_after(start, k as nat),
    ensures
        forall|a: int, b: int| 0 <= a < b < ids.len() ==> #[trigger] ids[a] != #[trigger] ids[b],
{
    assert forall|a: int, b: int| 0 <= a < b < ids.len() implies #[trigger] ids[a] != #[trigger] ids[b] by {
        law_ids_are_distinct(start, a as nat, b as nat);
        assert(ids[a]@ == nth_after(start, a as nat));
        assert(ids[b]@ == nth_after(start, b as nat));
    }
}

impl NotificationId {
    /// Takes the next id from `ids`; ids taken from one sequence are unique.
    pub fn gen_next(ids: &mut IdSequence) -> (id: NotificationId)
        ensures
            id@ == old(ids)@,
            final(ids)@ == nth_after(old(ids)@, 1),
    {
        NotificationId(ids.take())
    }

    /// Returns id
    pub fn id(&self) -> (v: u32)
        ensures
            v == self@,
    {
        self.0
    }
}

} // verus!
