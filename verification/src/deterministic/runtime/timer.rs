//! Timer module.

use crate::deterministic::runtime::executor::TaskWaker;
use crate::deterministic::runtime::reactor::DeterministicReactor;
use crate::deterministic::runtime::reactor::insert_sorted;
use crate::deterministic::runtime::reactor::lemma_sort_keeps_distinct_tasks;
use crate::deterministic::runtime::reactor::lemma_sorted_head_is_minimum;
use crate::deterministic::runtime::reactor::lemma_stable_sort;
use crate::deterministic::runtime::reactor::stable_sort;
use crate::deterministic::runtime::reactor::wakes_distinct_tasks;
use crate::deterministic::runtime::reactor::ReactorEntry;
use crate::deterministic::runtime::schedule::advances;
use crate::deterministic::runtime::schedule::lemma_first_steps;
use crate::deterministic::runtime::schedule::lemma_no_advances;
use crate::deterministic::runtime::schedule::lemma_split_events;
use crate::deterministic::runtime::schedule::Event;
use crate::deterministic::runtime::schedule::Schedule;
use crate::deterministic::runtime::task::Poll;
use crate::deterministic::runtime::task::Suspendable;
use crate::deterministic::runtime::task::TaskId;
use crate::deterministic::time::duration_nanos;
use crate::deterministic::time::nanos_of;
use crate::deterministic::time::DeterministicTime;
use crate::deterministic::time::MAX_DURATION_NANOS;
use std::time::Duration;
use vstd::prelude::*;

verus! {

/// A timer that can be used in simulation.
///
/// The timer registers its duration with the reactor once, on its first
/// poll. It completes when the virtual clock has reached the point at which
/// it expires; woken before that, it suspends again without registering a
/// second time.
pub struct DeterministicTimer {
    duration: Duration,
    expired_at: u128,
    already_registered: bool,
}

impl DeterministicTimer {
    /// The duration that the timer waits for.
    pub closed spec fn duration(&self) -> Duration {
        self.duration
    }

    /// The virtual time, in nanoseconds since the base of the clock, at which
    /// the timer expires.
    pub closed spec fn expires_at(&self) -> nat {
        self.expired_at as nat
    }

    /// Whether the timer has registered its wait with the reactor.
    pub closed spec fn registered(&self) -> bool {
        self.already_registered
    }

    /// Wait in simulation: a timer that expires `duration` after the time
    /// that `time` shows.
    pub fn wait(time: DeterministicTime, duration: Duration) -> (timer: DeterministicTimer)
        ensures
            timer.duration() == duration,
            timer.expires_at() == time.elapsed_nanos() + duration_nanos(duration),
            !timer.registered(),
    {
        let start: u128 = nanos_of(&time.elapsed());
        let span: u128 = nanos_of(&duration);
        DeterministicTimer { duration, expired_at: start + span, already_registered: false }
    }

    /// Polls the timer: registers the wait on the first poll, then completes
    /// if the clock has reached the expiry.
    pub fn poll_next(&mut self, waker: &TaskWaker, reactor: &mut DeterministicReactor) -> (poll:
        Poll)
        ensures
            final(self).duration() == old(self).duration(),
            final(self).expires_at() == old(self).expires_at(),
            final(self).registered(),
            final(reactor).clock() == old(reactor).clock(),
            final(reactor).pending() == if old(self).registered() {
                old(reactor).pending()
            } else {
                old(reactor).pending().push(
                    ReactorEntry { duration: old(self).duration(), waker: *waker },
                )
            },
            poll == if old(self).expires_at() <= old(reactor).elapsed_nanos() {
                Poll::Ready
            } else {
                Poll::Pending
            },
    {
        if !self.already_registered {
            reactor.register_wait(self.duration, *waker);
            self.already_registered = true;
        }
        let now: u128 = nanos_of(&reactor.get_deterministic_time().elapsed());
        if self.expired_at <= now {
            Poll::Ready
        } else {
            Poll::Pending
        }
    }
}

/// Registering once is enough: when the reactor chooses the wait of a timer
/// and advances the clock by it, the timer has expired, however far the
/// clock had moved between the making of the timer and that advance.
pub proof fn lemma_own_wake_is_on_time(
    timer: DeterministicTimer,
    made_at: DeterministicTime,
    before: DeterministicReactor,
    after: DeterministicReactor,
)
    requires
        timer.expires_at() == made_at.elapsed_nanos() + duration_nanos(timer.duration()),
        made_at.elapsed_nanos() <= before.elapsed_nanos(),
        after.elapsed_nanos() == before.elapsed_nanos() + duration_nanos(timer.duration()),
    ensures
        timer.expires_at() <= after.elapsed_nanos(),
{
}

impl Suspendable for DeterministicTimer {
    /// A poll leaves the clock alone, registers the wait of the timer unless
    /// it is registered already, and is `Ready` exactly when the clock has
    /// reached the expiry. The timer is registered afterwards and keeps its
    /// duration and its expiry.
    open spec fn polls(
        &self,
        then: &DeterministicTimer,
        waker: TaskWaker,
        before: DeterministicReactor,
        after: DeterministicReactor,
        poll: Poll,
    ) -> bool {
        &&& then.duration() == self.duration()
        &&& then.expires_at() == self.expires_at()
        &&& then.registered()
        &&& after.clock() == before.clock()
        &&& after.pending() == if self.registered() {
            before.pending()
        } else {
            before.pending().push(ReactorEntry { duration: self.duration(), waker })
        }
        &&& poll == if self.expires_at() <= before.elapsed_nanos() {
            Poll::Ready
        } else {
            Poll::Pending
        }
    }

    /// Polls the timer, as `poll_next` does.
    fn poll(&mut self, waker: &TaskWaker, reactor: &mut DeterministicReactor) -> (poll: Poll) {
        self.poll_next(waker, reactor)
    }
}

/// The course of one timer: where the only task is a timer that has not
/// been polled yet, was made at the time that the clock shows and waits for
/// more than nothing, at most three steps can be taken. The first polls the
/// timer, which registers its wait and suspends. The second advances the
/// clock by the duration of the timer and wakes its task. The third polls
/// the timer again, which completes and leaves the executor quiescent.
pub proof fn lemma_course_of_one_timer(
    start: Schedule<DeterministicTimer>,
    steps: Seq<Event<DeterministicTimer>>,
    id: TaskId,
)
    requires
        start.ready == seq![id],
        start.tasks.dom() == set![id],
        start.wakers.subset_of(start.tasks.dom()),
        start.pending == Seq::<ReactorEntry>::empty(),
        !start.tasks[id].computation().registered(),
        duration_nanos(start.tasks[id].computation().duration()) > 0,
        start.tasks[id].computation().expires_at() == start.elapsed + duration_nanos(
            start.tasks[id].computation().duration(),
        ),
        start.allows_all(steps),
    ensures
        steps.len() <= 3,
        steps.len() < 3 ==> !start.after_all(steps).quiescent(),
        steps.len() == 1 ==> {
            &&& start.after_all(steps).ready.len() == 0
            &&& start.after_all(steps).pending.len() == 1
            &&& start.after_all(steps).pending[0].duration == start.tasks[id].computation().duration()
            &&& start.after_all(steps).elapsed == start.elapsed
        },
        steps.len() == 2 ==> start.after_all(steps).ready == seq![id],
        steps.len() >= 2 ==> {
            &&& start.elapsed + duration_nanos(start.tasks[id].computation().duration())
                <= MAX_DURATION_NANOS
            &&& start.after_all(steps).elapsed == start.elapsed + duration_nanos(
                start.tasks[id].computation().duration(),
            )
            &&& start.after_all(steps).pending.len() == 0
            &&& advances(steps) == 1
        },
        steps.len() == 3 ==> start.after_all(steps).quiescent(),
        steps.len() < 2 ==> advances(steps) == 0,
{
    let timer = start.tasks[id].computation();
    let nanos = duration_nanos(timer.duration());
    assert(start.tasks.dom().contains(id));
    assert(steps.take(0) =~= Seq::<Event<DeterministicTimer>>::empty());
    if steps.len() >= 1 {
        lemma_first_steps(start, steps, 1);
        let first = start.after(steps[0]);
        assert(start.after_all(steps.take(1)) == first);
        assert(steps[0] is Polled);
        assert(first.tasks.dom() =~= set![id]);
        assert(first.ready =~= Seq::<TaskId>::empty());
        assert(first.pending =~= seq![first.pending[0]]);
        lemma_no_advances(steps.take(1));
        if steps.len() >= 2 {
            lemma_first_steps(start, steps, 2);
            let second = first.after(steps[1]);
            assert(start.after_all(steps.take(2)) == second);
            assert(steps[1] is Advanced);
            assert(stable_sort(first.pending) =~= first.pending) by {
                reveal_with_fuel(stable_sort, 3);
                reveal_with_fuel(insert_sorted, 3);
                assert(first.pending.drop_last() =~= Seq::<ReactorEntry>::empty());
            }
            assert(second.pending =~= Seq::<ReactorEntry>::empty());
            assert(second.ready =~= seq![id]);
            assert(advances(steps.take(2)) == 1) by {
                assert(steps.take(2).drop_last() =~= steps.take(1));
            }
            if steps.len() >= 3 {
                lemma_first_steps(start, steps, 3);
                let third = second.after(steps[2]);
                assert(start.after_all(steps.take(3)) == third);
                assert(steps[2] is Polled);
                assert(third.tasks.dom() =~= Set::<TaskId>::empty());
                assert(third.wakers =~= Set::<TaskId>::empty());
                assert(third.ready =~= Seq::<TaskId>::empty());
                assert(advances(steps.take(3)) == 1) by {
                    assert(steps.take(3).drop_last() =~= steps.take(2));
                }
                if steps.len() >= 4 {
                    lemma_first_steps(start, steps, 4);
                    assert(!third.allows(steps[3]));
                }
                assert(steps.take(3) =~= steps);
            } else {
                assert(steps.take(2) =~= steps);
            }
        } else {
            assert(steps.take(1) =~= steps);
        }
    } else {
        assert(steps =~= Seq::<Event<DeterministicTimer>>::empty());
    }
}

/// Whether the wait `entry` is the wait of a timer that runs as a task of
/// `schedule`: the task that it wakes is there, and is a timer that has
/// registered that duration and was made no later than the clock shows.
pub open spec fn is_wait_of_timer(schedule: Schedule<DeterministicTimer>, entry: ReactorEntry) -> bool {
    let timer = schedule.tasks[entry.waker.task()].computation();
    &&& schedule.tasks.contains_key(entry.waker.task())
    &&& timer.registered()
    &&& timer.duration() == entry.duration
    &&& timer.expires_at() <= schedule.elapsed + entry.nanos()
}

/// Whether an executor of timers waits on them: nothing is ready, and the
/// pending waits are those of timers that run as tasks, each of a task of
/// its own.
pub open spec fn waits_on_timers(schedule: Schedule<DeterministicTimer>) -> bool {
    &&& schedule.ready.len() == 0
    &&& schedule.wakers.subset_of(schedule.tasks.dom())
    &&& wakes_distinct_tasks(schedule.pending)
    &&& forall|i: int|
        0 <= i < schedule.pending.len() ==> is_wait_of_timer(
            schedule,
            #[trigger] schedule.pending[i],
        )
}

/// Timers fire shortest first, and each adds its own duration to the clock.
///
/// Where an executor waits on its timers, the next two steps are fixed. The
/// first advances the clock by the duration of the first of the shortest
/// waits, as it was registered, and wakes its task. The second polls that
/// task, whose timer completes. The executor then waits on the timers that
/// are left, with their waits in sorted order and as they were registered.
pub proof fn lemma_shortest_timer_fires(
    start: Schedule<DeterministicTimer>,
    steps: Seq<Event<DeterministicTimer>>,
)
    requires
        waits_on_timers(start),
        start.pending.len() > 0,
        start.allows_all(steps),
    ensures
        steps.len() >= 1 ==> {
            &&& steps[0] == (Event::<DeterministicTimer>::Advanced {
                entry: stable_sort(start.pending)[0],
            })
            &&& start.elapsed + stable_sort(start.pending)[0].nanos() <= MAX_DURATION_NANOS
        },
        steps.len() == 1 ==> start.after_all(steps).ready == seq![
            stable_sort(start.pending)[0].waker.task(),
        ],
        steps.len() >= 2 ==> {
            let then = start.after_all(steps.take(2));
            &&& steps[1] is Polled
            &&& steps[1].task() == stable_sort(start.pending)[0].waker.task()
            &&& steps[1]->poll == Poll::Ready
            &&& waits_on_timers(then)
            &&& then.pending == stable_sort(start.pending).skip(1)
            &&& then.elapsed == start.elapsed + stable_sort(start.pending)[0].nanos()
            &&& then.tasks == start.tasks.remove(stable_sort(start.pending)[0].waker.task())
            &&& then.allows_all(steps.skip(2))
            &&& start.after_all(steps) == then.after_all(steps.skip(2))
        },
{
    let waits = start.pending;
    let sorted = stable_sort(waits);
    let head = sorted[0];
    let id = head.waker.task();
    lemma_stable_sort(waits);
    lemma_sorted_head_is_minimum(waits);
    lemma_sort_keeps_distinct_tasks(waits);
    let at = choose|at: int| 0 <= at < waits.len() && waits[at] == head;
    assert(is_wait_of_timer(start, waits[at]));
    assert(steps.take(0) =~= Seq::<Event<DeterministicTimer>>::empty());
    if steps.len() >= 1 {
        lemma_first_steps(start, steps, 1);
        let woken = start.after(steps[0]);
        assert(start.after_all(steps.take(1)) == woken);
        assert(steps[0] is Advanced);
        assert(woken.ready =~= seq![id]);
        if steps.len() >= 2 {
            lemma_first_steps(start, steps, 2);
            lemma_split_events(start, steps, 2);
            let then = woken.after(steps[1]);
            assert(start.after_all(steps.take(2)) == then);
            assert(steps[1] is Polled);
            assert(then.ready =~= Seq::<TaskId>::empty());
            assert(then.pending =~= sorted.skip(1));
            assert forall|i: int| 0 <= i < then.pending.len() implies is_wait_of_timer(
                then,
                #[trigger] then.pending[i],
            ) by {
                let entry = sorted[i + 1];
                assert(then.pending[i] == entry);
                assert(waits.contains(entry));
                let q = choose|q: int| 0 <= q < waits.len() && waits[q] == entry;
                assert(is_wait_of_timer(start, waits[q]));
                assert(sorted[0].waker.task() != sorted[i + 1].waker.task());
            }
            assert(wakes_distinct_tasks(then.pending)) by {
                assert forall|i: int, j: int| 0 <= i < j < then.pending.len() implies then.pending[i].waker.task()
                    != then.pending[j].waker.task() by {
                    assert(then.pending[i] == sorted[i + 1]);
                    assert(then.pending[j] == sorted[j + 1]);
                }
            }
        } else {
            assert(steps.take(1) =~= steps);
        }
    }
}

/// Whether the task `id` of `schedule` is a timer that has not been polled
/// yet and has not expired: it has registered nothing, and it was made no
/// later than the clock shows.
pub open spec fn is_fresh_timer(schedule: Schedule<DeterministicTimer>, id: TaskId) -> bool {
    let timer = schedule.tasks[id].computation();
    &&& schedule.tasks.contains_key(id)
    &&& !timer.registered()
    &&& schedule.elapsed < timer.expires_at() <= schedule.elapsed + duration_nanos(
        timer.duration(),
    )
}

/// Whether an executor of timers is about to poll fresh timers: each task
/// that is queued is queued once and is a fresh timer, and the pending waits
/// are those of timers that run as other tasks, each of a task of its own.
pub open spec fn polls_fresh_timers(schedule: Schedule<DeterministicTimer>) -> bool {
    &&& schedule.ready.no_duplicates()
    &&& forall|k: int|
        0 <= k < schedule.ready.len() ==> is_fresh_timer(schedule, #[trigger] schedule.ready[k])
    &&& schedule.wakers.subset_of(schedule.tasks.dom())
    &&& wakes_distinct_tasks(schedule.pending)
    &&& forall|i: int|
        0 <= i < schedule.pending.len() ==> is_wait_of_timer(
            schedule,
            #[trigger] schedule.pending[i],
        )
    &&& forall|i: int, k: int|
        0 <= i < schedule.pending.len() && 0 <= k < schedule.ready.len()
            ==> #[trigger] schedule.pending[i].waker.task() != #[trigger] schedule.ready[k]
}

/// An executor that has polled all its fresh timers waits on its timers.
pub proof fn lemma_all_timers_polled(schedule: Schedule<DeterministicTimer>)
    requires
        polls_fresh_timers(schedule),
        schedule.ready.len() == 0,
    ensures
        waits_on_timers(schedule),
{
}

/// A fresh timer registers its wait and suspends.
///
/// Where an executor is about to poll fresh timers, the next step is fixed:
/// it polls the timer that is queued first, which registers a wait of its
/// duration behind the waits that are pending, and suspends. The clock stays
/// where it is, and the executor is about to poll the fresh timers that are
/// still queued.
pub proof fn lemma_fresh_timer_registers(
    start: Schedule<DeterministicTimer>,
    steps: Seq<Event<DeterministicTimer>>,
)
    requires
        polls_fresh_timers(start),
        start.ready.len() > 0,
        start.allows_all(steps),
        steps.len() > 0,
    ensures
        steps[0] is Polled,
        steps[0].task() == start.ready[0],
        steps[0]->poll == Poll::Pending,
        ({
            let then = start.after_all(steps.take(1));
            &&& polls_fresh_timers(then)
            &&& then.ready == start.ready.drop_first()
            &&& then.pending.len() == start.pending.len() + 1
            &&& then.pending.drop_last() == start.pending
            &&& then.pending.last().waker.task() == start.ready[0]
            &&& then.pending.last().duration == start.tasks[start.ready[0]].computation().duration()
            &&& then.elapsed == start.elapsed
            &&& then.tasks.dom() == start.tasks.dom()
            &&& then.tasks.remove(start.ready[0]) == start.tasks.remove(start.ready[0])
            &&& then.allows_all(steps.skip(1))
            &&& start.after_all(steps) == then.after_all(steps.skip(1))
        }),
{
    let id = start.ready[0];
    assert(is_fresh_timer(start, start.ready[0]));
    assert(steps.take(0) =~= Seq::<Event<DeterministicTimer>>::empty());
    lemma_first_steps(start, steps, 1);
    lemma_split_events(start, steps, 1);
    let then = start.after(steps[0]);
    assert(start.after_all(steps.take(1)) == then);
    assert(steps[0] is Polled);
    assert(then.pending.drop_last() =~= start.pending);
    assert(then.tasks.dom() =~= start.tasks.dom());
    assert(then.tasks.remove(start.ready[0]) =~= start.tasks.remove(start.ready[0]));
    assert forall|k: int| 0 <= k < then.ready.len() implies is_fresh_timer(
        then,
        #[trigger] then.ready[k],
    ) by {
        assert(then.ready[k] == start.ready[k + 1]);
        assert(is_fresh_timer(start, start.ready[k + 1]));
    }
    assert forall|i: int| 0 <= i < then.pending.len() implies is_wait_of_timer(
        then,
        #[trigger] then.pending[i],
    ) by {
        if i < start.pending.len() {
            assert(then.pending[i] == start.pending[i]);
            assert(is_wait_of_timer(start, start.pending[i]));
            assert(start.pending[i].waker.task() != start.ready[0]);
        }
    }
    assert(wakes_distinct_tasks(then.pending)) by {
        assert forall|i: int, j: int| 0 <= i < j < then.pending.len() implies then.pending[i].waker.task()
            != then.pending[j].waker.task() by {
            assert(then.pending[i] == start.pending[i]);
            if j < start.pending.len() {
                assert(then.pending[j] == start.pending[j]);
            } else {
                assert(start.pending[i].waker.task() != start.ready[0]);
            }
        }
    }
    assert forall|i: int, k: int|
        0 <= i < then.pending.len() && 0 <= k < then.ready.len() implies #[trigger] then.pending[i].waker.task()
        != #[trigger] then.ready[k] by {
        assert(then.ready[k] == start.ready[k + 1]);
        if i < start.pending.len() {
            assert(then.pending[i] == start.pending[i]);
        }
    }
}

} // verus!
