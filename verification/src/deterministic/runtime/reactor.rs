//! Reactor module.
//!
//! The reactor stands in for real I/O readiness: simulation structures can
//! only register timers with it. When the executor has nothing left to poll,
//! the reactor picks the shortest registered wait, moves the virtual clock
//! forward by exactly that much and wakes the task that registered it.
//!
//! A wait keeps the duration it was registered with; it is never recomputed
//! against the clock.

use crate::deterministic::runtime::executor::TaskWaker;
use crate::deterministic::runtime::queue::ReadyQueue;
use crate::deterministic::time::duration_nanos;
use crate::deterministic::time::nanos_of;
use crate::deterministic::time::DeterministicTime;
use crate::deterministic::time::MAX_DURATION_NANOS;
use std::time::Duration;
use vstd::prelude::*;

verus! {

/// One pending wake-up: how long the wait is, and whom to wake.
#[derive(Clone, Copy)]
pub struct ReactorEntry {
    /// The registered duration.
    pub duration: Duration,
    /// The waker to call when the wait is chosen.
    pub waker: TaskWaker,
}

impl ReactorEntry {
    /// The registered duration in nanoseconds: the key that waits are
    /// ordered by.
    pub open spec fn nanos(&self) -> nat {
        duration_nanos(self.duration)
    }

    /// Creates an entry.
    pub fn new(duration: Duration, waker: TaskWaker) -> (entry: ReactorEntry)
        ensures
            entry == (ReactorEntry { duration, waker }),
    {
        ReactorEntry { duration, waker }
    }
}

/// `sorted` with `entry` put behind the last entry that is not longer than
/// it.
pub open spec fn insert_sorted(sorted: Seq<ReactorEntry>, entry: ReactorEntry) -> Seq<
    ReactorEntry,
>
    decreases sorted.len(),
{
    if sorted.len() == 0 {
        seq![entry]
    } else if sorted.last().nanos() <= entry.nanos() {
        sorted.push(entry)
    } else {
        insert_sorted(sorted.drop_last(), entry).push(sorted.last())
    }
}

/// The entries of `waits` in ascending order of duration, entries of equal
/// duration in the order in which they stand in `waits`.
pub open spec fn stable_sort(waits: Seq<ReactorEntry>) -> Seq<ReactorEntry>
    decreases waits.len(),
{
    if waits.len() == 0 {
        Seq::<ReactorEntry>::empty()
    } else {
        insert_sorted(stable_sort(waits.drop_last()), waits.last())
    }
}

/// Whether the durations of `waits` never decrease from one entry to the
/// next.
pub open spec fn ascending(waits: Seq<ReactorEntry>) -> bool {
    forall|i: int, j: int| 0 <= i <= j < waits.len() ==> waits[i].nanos() <= waits[j].nanos()
}

/// Putting an entry at the place that `insert_sorted` picks: every entry from
/// `at` on is longer than `entry`, and the one before `at` is not.
proof fn lemma_insert_sorted_at(sorted: Seq<ReactorEntry>, entry: ReactorEntry, at: int)
    requires
        0 <= at <= sorted.len(),
        forall|k: int| at <= k < sorted.len() ==> sorted[k].nanos() > entry.nanos(),
        at > 0 ==> sorted[at - 1].nanos() <= entry.nanos(),
    ensures
        insert_sorted(sorted, entry) == sorted.insert(at, entry),
    decreases sorted.len(),
{
    if sorted.len() == 0 {
        assert(sorted.insert(at, entry) =~= seq![entry]);
    } else if at == sorted.len() {
        assert(sorted.insert(at, entry) =~= sorted.push(entry));
    } else {
        lemma_insert_sorted_at(sorted.drop_last(), entry, at);
        assert(sorted.insert(at, entry) =~= sorted.drop_last().insert(at, entry).push(
            sorted.last(),
        ));
    }
}

/// Inserting keeps the length growing by one, keeps every entry and keeps an
/// ascending sequence ascending.
pub proof fn lemma_insert_sorted(sorted: Seq<ReactorEntry>, entry: ReactorEntry)
    ensures
        insert_sorted(sorted, entry).len() == sorted.len() + 1,
        insert_sorted(sorted, entry).to_multiset() == sorted.to_multiset().insert(entry),
        ascending(sorted) ==> ascending(insert_sorted(sorted, entry)),
    decreases sorted.len(),
{
    broadcast use vstd::seq_lib::group_to_multiset_ensures;

    if sorted.len() == 0 {
        assert(sorted =~= Seq::<ReactorEntry>::empty());
        assert(seq![entry] =~= Seq::<ReactorEntry>::empty().push(entry));
    } else if sorted.last().nanos() <= entry.nanos() {
    } else {
        let front = sorted.drop_last();
        lemma_insert_sorted(front, entry);
        assert(sorted =~= front.push(sorted.last()));
        let inner = insert_sorted(front, entry);
        assert(inner.push(sorted.last()).to_multiset() == inner.to_multiset().insert(
            sorted.last(),
        ));
        assert(front.to_multiset().insert(entry).insert(sorted.last()) =~= front.to_multiset().insert(
            sorted.last(),
        ).insert(entry));
        if ascending(sorted) {
            assert(ascending(front));
            let out = inner.push(sorted.last());
            assert forall|i: int, j: int| 0 <= i <= j < out.len() implies out[i].nanos()
                <= out[j].nanos() by {
                if j == out.len() - 1 && i < j {
                    // every entry of `inner` is `entry` or an entry of `front`
                    assert(inner.to_multiset().count(inner[i]) > 0);
                    if inner[i] != entry {
                        assert(front.to_multiset().count(inner[i]) > 0);
                        let k = choose|k: int| 0 <= k < front.len() && front[k] == inner[i];
                        assert(sorted[k] == front[k]);
                    }
                }
            }
        }
    }
}

/// The stable sort keeps every entry and yields an ascending sequence.
pub proof fn lemma_stable_sort(waits: Seq<ReactorEntry>)
    ensures
        stable_sort(waits).len() == waits.len(),
        stable_sort(waits).to_multiset() == waits.to_multiset(),
        ascending(stable_sort(waits)),
    decreases waits.len(),
{
    broadcast use vstd::seq_lib::group_to_multiset_ensures;

    if waits.len() == 0 {
        assert(waits =~= Seq::<ReactorEntry>::empty());
    } else {
        lemma_stable_sort(waits.drop_last());
        lemma_insert_sorted(stable_sort(waits.drop_last()), waits.last());
        assert(waits =~= waits.drop_last().push(waits.last()));
    }
}

/// Whether `waits[at]` is the first of the shortest waits: nothing is shorter,
/// and everything before it is longer.
pub open spec fn is_first_minimum(waits: Seq<ReactorEntry>, at: int) -> bool {
    &&& 0 <= at < waits.len()
    &&& forall|i: int| 0 <= i < waits.len() ==> waits[at].nanos() <= #[trigger] waits[i].nanos()
    &&& forall|i: int| 0 <= i < at ==> #[trigger] waits[i].nanos() > waits[at].nanos()
}

/// Inserting an entry that is not shorter than the head leaves the head in
/// place and inserts into what follows it.
proof fn lemma_insert_keeps_head(sorted: Seq<ReactorEntry>, entry: ReactorEntry)
    requires
        sorted.len() > 0,
        sorted[0].nanos() <= entry.nanos(),
    ensures
        insert_sorted(sorted, entry)[0] == sorted[0],
        insert_sorted(sorted, entry).skip(1) == insert_sorted(sorted.skip(1), entry),
    decreases sorted.len(),
{
    let rest = sorted.skip(1);
    if sorted.len() == 1 {
        assert(sorted.push(entry).skip(1) =~= seq![entry]);
    } else if sorted.last().nanos() <= entry.nanos() {
        assert(rest.last() == sorted.last());
        assert(sorted.push(entry).skip(1) =~= rest.push(entry));
    } else {
        let front = sorted.drop_last();
        lemma_insert_keeps_head(front, entry);
        lemma_insert_sorted(front, entry);
        let inner = insert_sorted(front, entry);
        assert(rest.last() == sorted.last());
        assert(rest.drop_last() =~= front.skip(1));
        assert(inner.push(sorted.last()).skip(1) =~= inner.skip(1).push(sorted.last()));
    }
}

/// The stable sort puts the first of the shortest waits at the head, and
/// what follows the head is the stable sort of the other waits.
pub proof fn lemma_sorted_head_is_first_minimum(waits: Seq<ReactorEntry>, at: int)
    requires
        is_first_minimum(waits, at),
    ensures
        stable_sort(waits).len() == waits.len(),
        stable_sort(waits)[0] == waits[at],
        stable_sort(waits).skip(1) == stable_sort(waits.remove(at)),
    decreases waits.len(),
{
    broadcast use vstd::seq_lib::group_to_multiset_ensures;

    let front = waits.drop_last();
    let last = waits.last();
    let sorted = stable_sort(front);
    lemma_stable_sort(front);
    lemma_stable_sort(waits);
    if at == waits.len() - 1 {
        assert forall|k: int| 0 <= k < sorted.len() implies sorted[k].nanos() > last.nanos() by {
            assert(sorted.to_multiset().count(sorted[k]) > 0);
            assert(front.contains(sorted[k]));
            let i = choose|i: int| 0 <= i < front.len() && front[i] == sorted[k];
            assert(waits[i] == front[i]);
        }
        lemma_insert_sorted_at(sorted, last, 0);
        assert(sorted.insert(0, last).skip(1) =~= sorted);
        assert(waits.remove(at) =~= front);
    } else {
        assert(is_first_minimum(front, at)) by {
            assert forall|i: int| 0 <= i < front.len() implies front[at].nanos()
                <= #[trigger] front[i].nanos() by {
                assert(front[i] == waits[i]);
            }
            assert forall|i: int| 0 <= i < at implies #[trigger] front[i].nanos()
                > front[at].nanos() by {
                assert(front[i] == waits[i]);
            }
        }
        lemma_sorted_head_is_first_minimum(front, at);
        assert(last == waits[waits.len() - 1]);
        lemma_insert_keeps_head(sorted, last);
        let shorter = waits.remove(at);
        assert(shorter.drop_last() =~= front.remove(at));
        assert(shorter.last() == last);
    }
}

/// The head of the stable sort is one of the waits, and none is shorter.
pub proof fn lemma_sorted_head_is_minimum(waits: Seq<ReactorEntry>)
    requires
        waits.len() > 0,
    ensures
        waits.contains(stable_sort(waits)[0]),
        forall|i: int|
            0 <= i < waits.len() ==> stable_sort(waits)[0].nanos() <= #[trigger] waits[i].nanos(),
{
    broadcast use vstd::seq_lib::group_to_multiset_ensures;

    lemma_stable_sort(waits);
    let sorted = stable_sort(waits);
    assert(sorted.to_multiset().count(sorted[0]) > 0);
    assert forall|i: int| 0 <= i < waits.len() implies sorted[0].nanos() <= #[trigger] waits[
        i
    ].nanos() by {
        assert(waits.to_multiset().count(waits[i]) > 0);
        assert(sorted.contains(waits[i]));
        let k = choose|k: int| 0 <= k < sorted.len() && sorted[k] == waits[i];
        assert(sorted[0].nanos() <= sorted[k].nanos());
    }
}

/// Whether no two of the waits `waits` wake the same task.
pub open spec fn wakes_distinct_tasks(waits: Seq<ReactorEntry>) -> bool {
    forall|i: int, j: int|
        0 <= i < j < waits.len() ==> waits[i].waker.task() != waits[j].waker.task()
}

/// Sorting brings no wait in and keeps waits of distinct tasks distinct.
pub proof fn lemma_sort_keeps_distinct_tasks(waits: Seq<ReactorEntry>)
    requires
        wakes_distinct_tasks(waits),
    ensures
        wakes_distinct_tasks(stable_sort(waits)),
        stable_sort(waits).no_duplicates(),
        forall|i: int|
            0 <= i < stable_sort(waits).len() ==> waits.contains(#[trigger] stable_sort(waits)[i]),
{
    broadcast use vstd::seq_lib::group_to_multiset_ensures;

    let sorted = stable_sort(waits);
    lemma_stable_sort(waits);
    assert(waits.no_duplicates());
    waits.lemma_multiset_has_no_duplicates();
    sorted.lemma_multiset_has_no_duplicates_conv();
    assert forall|i: int| 0 <= i < sorted.len() implies waits.contains(#[trigger] sorted[i]) by {
        assert(sorted.to_multiset().count(sorted[i]) > 0);
    }
    assert forall|i: int, j: int| 0 <= i < j < sorted.len() implies sorted[i].waker.task()
        != sorted[j].waker.task() by {
        assert(waits.contains(sorted[i]));
        assert(waits.contains(sorted[j]));
        let p = choose|p: int| 0 <= p < waits.len() && waits[p] == sorted[i];
        let q = choose|q: int| 0 <= q < waits.len() && waits[q] == sorted[j];
        assert(sorted[i] != sorted[j]);
        assert(p != q);
    }
}

/// Sorting waits that are in ascending order changes nothing.
pub proof fn lemma_sort_of_ascending(waits: Seq<ReactorEntry>)
    requires
        ascending(waits),
    ensures
        stable_sort(waits) == waits,
    decreases waits.len(),
{
    if waits.len() > 0 {
        let front = waits.drop_last();
        assert(ascending(front));
        lemma_sort_of_ascending(front);
        assert(front.push(waits.last()) =~= waits);
        if front.len() > 0 {
            assert(front.last() == waits[waits.len() - 2]);
        }
    }
}

/// Sorts `waits` by duration, ascending, keeping waits of equal duration in
/// the order in which they were registered.
fn sort_waits(waits: &mut Vec<ReactorEntry>)
    ensures
        final(waits)@ == stable_sort(old(waits)@),
{
    let mut sorted: Vec<ReactorEntry> = Vec::new();
    let mut i: usize = 0;
    assert(waits@.subrange(0, 0) =~= Seq::<ReactorEntry>::empty());
    while i < waits.len()
        invariant
            i <= waits.len(),
            waits@ == old(waits)@,
            sorted@ == stable_sort(waits@.subrange(0, i as int)),
        decreases waits.len() - i,
    {
        let entry: ReactorEntry = waits[i];
        let key: u128 = nanos_of(&entry.duration);
        let mut at: usize = sorted.len();
        while at > 0 && nanos_of(&sorted[at - 1].duration) > key
            invariant
                at <= sorted.len(),
                key == entry.nanos(),
                forall|k: int| at <= k < sorted.len() ==> sorted@[k].nanos() > entry.nanos(),
            decreases at,
        {
            at = at - 1;
        }
        proof {
            lemma_insert_sorted_at(sorted@, entry, at as int);
            let longer = waits@.subrange(0, i + 1);
            assert(longer.drop_last() =~= waits@.subrange(0, i as int));
            assert(longer.last() == entry);
        }
        sorted.insert(at, entry);
        i = i + 1;
    }
    assert(waits@.subrange(0, waits.len() as int) =~= waits@);
    *waits = sorted;
}

/// Why the reactor could not advance the simulation.
#[derive(Debug, Clone, Copy, PartialEq, Eq, Structural)]
pub enum AdvanceError {
    /// The ready queue has no room for the task to wake.
    QueueFull,
    /// The wait to choose would carry the virtual clock past the longest
    /// span that it can hold.
    ClockExhausted,
}

/// The DeterministicReactor is used to simulate "real I/O". It only knows
/// timers: when the runtime cannot make any task advance, the reactor picks
/// the shortest wait and advances time by it.
pub struct DeterministicReactor {
    time: DeterministicTime,
    waits: Vec<ReactorEntry>,
}

impl DeterministicReactor {
    /// The pending waits, in the order in which the reactor holds them.
    pub closed spec fn pending(&self) -> Seq<ReactorEntry> {
        self.waits@
    }

    /// The virtual clock.
    pub closed spec fn clock(&self) -> DeterministicTime {
        self.time
    }

    /// The virtual time elapsed, in nanoseconds.
    pub open spec fn elapsed_nanos(&self) -> nat {
        self.clock().elapsed_nanos()
    }

    /// Creates a reactor with a fresh clock and nothing pending.
    pub fn new() -> (reactor: DeterministicReactor)
        ensures
            reactor.pending() == Seq::<ReactorEntry>::empty(),
            reactor.elapsed_nanos() == 0,
    {
        DeterministicReactor { time: DeterministicTime::new(), waits: Vec::new() }
    }

    /// Returns the deterministic time used by the reactor, as it stands now.
    pub fn get_deterministic_time(&self) -> (time: DeterministicTime)
        ensures
            time == self.clock(),
    {
        self.time.clone()
    }

    /// The number of pending waits.
    pub fn pending_waits(&self) -> (count: usize)
        ensures
            count == self.pending().len(),
    {
        self.waits.len()
    }

    /// Whether the clock can be advanced by `duration` without leaving the
    /// range of a `Duration`.
    pub fn can_advance(&self, duration: Duration) -> (fits: bool)
        ensures
            fits == (self.elapsed_nanos() + duration_nanos(duration) <= MAX_DURATION_NANOS),
    {
        self.time.can_advance(duration)
    }

    /// Register a wait.
    pub fn register_wait(&mut self, duration: Duration, waker: TaskWaker)
        ensures
            final(self).pending() == old(self).pending().push(ReactorEntry { duration, waker }),
            final(self).clock() == old(self).clock(),
    {
        self.waits.push(ReactorEntry::new(duration, waker));
    }

    /// The wait that the next advance will choose: the first of the shortest
    /// pending waits. `None` when nothing is pending.
    pub fn next_wait(&self) -> (next: Option<ReactorEntry>)
        ensures
            self.pending().len() == 0 ==> next is None,
            self.pending().len() > 0 ==> next == Some(stable_sort(self.pending())[0]),
    {
        if self.waits.len() == 0 {
            return None;
        }
        let mut at: usize = 0;
        let mut shortest: u128 = nanos_of(&self.waits[0].duration);
        let mut i: usize = 1;
        while i < self.waits.len()
            invariant
                0 <= at < i <= self.waits.len(),
                shortest == self.waits@[at as int].nanos(),
                forall|k: int| 0 <= k < i ==> self.waits@[at as int].nanos() <= #[trigger] self.waits@[k].nanos(),
                forall|k: int| 0 <= k < at ==> #[trigger] self.waits@[k].nanos() > self.waits@[at as int].nanos(),
            decreases self.waits.len() - i,
        {
            let key: u128 = nanos_of(&self.waits[i].duration);
            if key < shortest {
                at = i;
                shortest = key;
            }
            i = i + 1;
        }
        proof {
            lemma_sorted_head_is_first_minimum(self.waits@, at as int);
        }
        Some(self.waits[at])
    }

    /// Advancing simulation. The reactor sorts its waits by duration, takes
    /// the first one out, advances the clock by that wait's duration and
    /// wakes its task onto `ready`. Returns the duration, or `None` when
    /// nothing is pending.
    pub fn advance_simulation(&mut self, ready: &mut ReadyQueue) -> (advanced: Option<Duration>)
        requires
            old(self).pending().len() > 0 ==> !old(ready).spec_is_full(),
            old(self).pending().len() > 0 ==> old(self).elapsed_nanos() + stable_sort(
                old(self).pending(),
            )[0].nanos() <= MAX_DURATION_NANOS,
        ensures
            old(self).pending().len() == 0 ==> {
                &&& advanced is None
                &&& final(self).pending() == old(self).pending()
                &&& final(self).clock() == old(self).clock()
                &&& final(ready)@ == old(ready)@
            },
            old(self).pending().len() > 0 ==> {
                let sorted = stable_sort(old(self).pending());
                &&& advanced == Some(sorted[0].duration)
                &&& final(self).pending() == sorted.skip(1)
                &&& final(self).elapsed_nanos() == old(self).elapsed_nanos() + sorted[0].nanos()
                &&& final(self).clock().base_instant() == old(self).clock().base_instant()
                &&& final(ready)@ == old(ready)@.push(sorted[0].waker.task())
            },
            advanced matches Some(chosen) ==> {
                &&& old(self).pending().contains(stable_sort(old(self).pending())[0])
                &&& forall|i: int|
                    0 <= i < old(self).pending().len() ==> duration_nanos(chosen) <= #[trigger] old(
                        self,
                    ).pending()[i].nanos()
            },
            final(ready).spec_capacity() == old(ready).spec_capacity(),
    {
        if self.waits.len() > 0 {
            proof {
                lemma_stable_sort(self.waits@);
                lemma_sorted_head_is_minimum(self.waits@);
            }
            // sort entry per duration
            sort_waits(&mut self.waits);
            // get next wait
            let next: ReactorEntry = self.waits.remove(0);
            assert(self.waits@ =~= stable_sort(old(self).pending()).skip(1));
            self.time.advance(next.duration);
            next.waker.wake(ready);
            Some(next.duration)
        } else {
            None
        }
    }
}

impl DeterministicReactor {
    /// Advances the simulation if it can be advanced: as
    /// `advance_simulation`, but a full ready queue or a clock that cannot
    /// hold the advance is reported, and the reactor is then left as it was.
    pub fn try_advance_simulation(&mut self, ready: &mut ReadyQueue) -> (advanced: Result<
        Option<Duration>,
        AdvanceError,
    >)
        ensures
            final(ready).spec_capacity() == old(ready).spec_capacity(),
            old(self).pending().len() == 0 ==> advanced == Ok::<Option<Duration>, AdvanceError>(
                None,
            ),
            old(self).pending().len() > 0 ==> {
                let next = stable_sort(old(self).pending())[0];
                advanced == if old(ready).spec_is_full() {
                    Err::<Option<Duration>, AdvanceError>(AdvanceError::QueueFull)
                } else if old(self).elapsed_nanos() + next.nanos() > MAX_DURATION_NANOS {
                    Err::<Option<Duration>, AdvanceError>(AdvanceError::ClockExhausted)
                } else {
                    Ok::<Option<Duration>, AdvanceError>(Some(next.duration))
                }
            },
            advanced is Err || old(self).pending().len() == 0 ==> {
                &&& final(self).pending() == old(self).pending()
                &&& final(self).clock() == old(self).clock()
                &&& final(ready)@ == old(ready)@
            },
            advanced is Ok && old(self).pending().len() > 0 ==> {
                let sorted = stable_sort(old(self).pending());
                &&& final(self).pending() == sorted.skip(1)
                &&& final(self).elapsed_nanos() == old(self).elapsed_nanos() + sorted[0].nanos()
                &&& final(self).clock().base_instant() == old(self).clock().base_instant()
                &&& final(ready)@ == old(ready)@.push(sorted[0].waker.task())
            },
    {
        match self.next_wait() {
            None => Ok(None),
            Some(next) => {
                if ready.is_full() {
                    Err(AdvanceError::QueueFull)
                } else if !self.can_advance(next.duration) {
                    Err(AdvanceError::ClockExhausted)
                } else {
                    Ok(self.advance_simulation(ready))
                }
            },
        }
    }
}

impl Default for DeterministicReactor {
    /// Create a default `DeterministicReactor`
    fn default() -> (reactor: DeterministicReactor)
        ensures
            reactor.pending() == Seq::<ReactorEntry>::empty(),
            reactor.elapsed_nanos() == 0,
    {
        DeterministicReactor::new()
    }
}

} // verus!
