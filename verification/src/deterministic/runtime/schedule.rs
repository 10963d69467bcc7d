//! The schedule: what an executor holds, seen as plain mathematical values,
//! and the steps that take one schedule to the next.
//!
//! The executor is deterministic up to what the tasks do when they are
//! polled. A step therefore names what a poll reported and how it left the
//! reactor and the task; given the steps, the schedule that results is
//! fixed.

use crate::deterministic::runtime::executor::TaskWaker;
use crate::deterministic::runtime::reactor::stable_sort;
use crate::deterministic::runtime::reactor::DeterministicReactor;
use crate::deterministic::runtime::reactor::ReactorEntry;
use crate::deterministic::runtime::task::Poll;
use crate::deterministic::runtime::task::Suspendable;
use crate::deterministic::runtime::task::Task;
use crate::deterministic::runtime::task::TaskId;
use crate::deterministic::time::MAX_DURATION_NANOS;
use std::time::Instant;
use vstd::prelude::*;

verus! {

/// What an executor and its reactor hold.
#[verifier::ext_equal]
pub struct Schedule<C: Suspendable> {
    /// The tasks that have not completed, each as it stands, under its
    /// identity.
    pub tasks: Map<TaskId, Task<C>>,
    /// The tasks for which a waker is cached.
    pub wakers: Set<TaskId>,
    /// The identities that wait to be polled, oldest first.
    pub ready: Seq<TaskId>,
    /// The waits that the reactor holds, in its order.
    pub pending: Seq<ReactorEntry>,
    /// The virtual time elapsed, in nanoseconds.
    pub elapsed: nat,
    /// The wall-clock instant that the virtual clock counts from.
    pub base: Instant,
}

/// One step of an executor.
#[verifier::ext_equal]
pub enum Event<C: Suspendable> {
    /// The oldest queued identity named no task, and was dropped.
    Skipped { task: TaskId },
    /// The task named by the oldest queued identity was polled with `waker`
    /// on the reactor `before`: it reported `poll`, left the reactor as
    /// `after`, and was itself as `left` afterwards.
    Polled {
        task: TaskId,
        waker: TaskWaker,
        poll: Poll,
        before: DeterministicReactor,
        after: DeterministicReactor,
        left: Task<C>,
    },
    /// Nothing was ready: the reactor chose the wait `entry`, advanced the
    /// clock by its duration and woke its task.
    Advanced { entry: ReactorEntry },
}

impl<C: Suspendable> Event<C> {
    /// The task that the step is about: the one skipped, polled or woken.
    pub open spec fn task(self) -> TaskId {
        match self {
            Event::Skipped { task } => task,
            Event::Polled { task, .. } => task,
            Event::Advanced { entry } => entry.waker.task(),
        }
    }
}

impl<C: Suspendable> Schedule<C> {
    /// Whether nothing is left to do: no task, no cached waker, no queued
    /// identity.
    pub open spec fn quiescent(self) -> bool {
        &&& self.tasks.dom() =~= Set::<TaskId>::empty()
        &&& self.wakers =~= Set::<TaskId>::empty()
        &&& self.ready.len() == 0
    }

    /// Whether `event` is the step that an executor takes from this
    /// schedule, for some behaviour of the task polled.
    ///
    /// The ready queue is served oldest first. A task is polled with its own
    /// waker on the reactor as it stands; the poll reports and does what the
    /// task, as it stood, allows, and moves neither the clock nor the waits
    /// that were pending. The reactor is asked only when nothing is ready and
    /// something is left to do, and it chooses the first of the shortest
    /// waits.
    pub open spec fn allows(self, event: Event<C>) -> bool {
        match event {
            Event::Skipped { task } => {
                &&& self.ready.len() > 0
                &&& self.ready[0] == task
                &&& !self.tasks.contains_key(task)
            },
            Event::Polled { task, waker, poll, before, after, left } => {
                &&& self.ready.len() > 0
                &&& self.ready[0] == task
                &&& self.tasks.contains_key(task)
                &&& waker.task() == task
                &&& before.pending() == self.pending
                &&& before.elapsed_nanos() == self.elapsed
                &&& before.clock().base_instant() == self.base
                &&& after.clock() == before.clock()
                &&& before.pending().is_prefix_of(after.pending())
                &&& left.task_id() == task
                &&& self.tasks[task].polls(&left, waker, before, after, poll)
            },
            Event::Advanced { entry } => {
                &&& self.ready.len() == 0
                &&& !self.quiescent()
                &&& self.pending.len() > 0
                &&& entry == stable_sort(self.pending)[0]
                &&& self.elapsed + entry.nanos() <= MAX_DURATION_NANOS
            },
        }
    }

    /// The schedule after the step `event`.
    pub open spec fn after(self, event: Event<C>) -> Schedule<C> {
        match event {
            Event::Skipped { task } => Schedule { ready: self.ready.drop_first(), ..self },
            Event::Polled { task, waker, poll, before, after, left } => Schedule {
                tasks: if poll == Poll::Ready {
                    self.tasks.remove(task)
                } else {
                    self.tasks.insert(task, left)
                },
                wakers: if poll == Poll::Ready {
                    self.wakers.remove(task)
                } else {
                    self.wakers.insert(task)
                },
                ready: self.ready.drop_first(),
                pending: after.pending(),
                elapsed: self.elapsed,
                base: self.base,
            },
            Event::Advanced { entry } => Schedule {
                tasks: self.tasks,
                wakers: self.wakers,
                ready: self.ready.push(entry.waker.task()),
                pending: stable_sort(self.pending).skip(1),
                elapsed: self.elapsed + entry.nanos(),
                base: self.base,
            },
        }
    }

    /// Whether the steps `events` can be taken one after the other, starting
    /// from this schedule.
    pub open spec fn allows_all(self, events: Seq<Event<C>>) -> bool
        decreases events.len(),
    {
        if events.len() == 0 {
            true
        } else {
            &&& self.allows_all(events.drop_last())
            &&& self.after_all(events.drop_last()).allows(events.last())
        }
    }

    /// The schedule after the steps `events`.
    pub open spec fn after_all(self, events: Seq<Event<C>>) -> Schedule<C>
        decreases events.len(),
    {
        if events.len() == 0 {
            self
        } else {
            self.after_all(events.drop_last()).after(events.last())
        }
    }
}

/// How many of the steps `events` are advances of the reactor.
pub open spec fn advances<C: Suspendable>(events: Seq<Event<C>>) -> nat
    decreases events.len(),
{
    if events.len() == 0 {
        0
    } else {
        advances(events.drop_last()) + if events.last() is Advanced {
            1nat
        } else {
            0nat
        }
    }
}

/// The steps that drop the first `count` identities of `ready`.
pub open spec fn skips<C: Suspendable>(ready: Seq<TaskId>, count: int) -> Seq<Event<C>> {
    Seq::new(count as nat, |i: int| Event::<C>::Skipped { task: ready[i] })
}

/// Taking one more step after some steps.
pub proof fn lemma_push_event<C: Suspendable>(
    start: Schedule<C>,
    events: Seq<Event<C>>,
    event: Event<C>,
)
    requires
        start.allows_all(events),
        start.after_all(events).allows(event),
    ensures
        start.allows_all(events.push(event)),
        start.after_all(events.push(event)) == start.after_all(events).after(event),
        advances(events.push(event)) == advances(events) + if event is Advanced {
            1nat
        } else {
            0nat
        },
{
    assert(events.push(event).drop_last() =~= events);
}

/// Taking steps after steps.
pub proof fn lemma_add_events<C: Suspendable>(
    start: Schedule<C>,
    first: Seq<Event<C>>,
    then: Seq<Event<C>>,
)
    requires
        start.allows_all(first),
        start.after_all(first).allows_all(then),
    ensures
        start.allows_all(first + then),
        start.after_all(first + then) == start.after_all(first).after_all(then),
        advances(first + then) == advances(first) + advances(then),
    decreases then.len(),
{
    if then.len() == 0 {
        assert(first + then =~= first);
    } else {
        lemma_add_events(start, first, then.drop_last());
        assert((first + then).drop_last() =~= first + then.drop_last());
        assert((first + then).last() == then.last());
    }
}

/// Identities that name no task are dropped one by one, and nothing else
/// changes.
pub proof fn lemma_skips<C: Suspendable>(start: Schedule<C>, count: int)
    requires
        0 <= count <= start.ready.len(),
        forall|j: int| 0 <= j < count ==> !start.tasks.contains_key(#[trigger] start.ready[j]),
    ensures
        start.allows_all(skips::<C>(start.ready, count)),
        start.after_all(skips::<C>(start.ready, count)) == (Schedule {
            ready: start.ready.skip(count),
            ..start
        }),
        advances(skips::<C>(start.ready, count)) == 0,
    decreases count,
{
    let events = skips::<C>(start.ready, count);
    if count == 0 {
        assert(start.ready.skip(0) =~= start.ready);
    } else {
        lemma_skips(start, count - 1);
        assert(events.drop_last() =~= skips::<C>(start.ready, count - 1));
        let before = start.after_all(skips::<C>(start.ready, count - 1));
        assert(before.ready[0] == start.ready[count - 1]);
        assert(before.ready.drop_first() =~= start.ready.skip(count));
    }
}

/// A poll in three moves (the task taken out with its waker cached, the task
/// polled, the task filed again or dropped) is one step.
pub proof fn lemma_poll_is_a_step<C: Suspendable>(
    middle: Schedule<C>,
    settled: Schedule<C>,
    task: TaskId,
    waker: TaskWaker,
    poll: Poll,
    before: DeterministicReactor,
    after: DeterministicReactor,
    left: Task<C>,
)
    requires
        settled == (Schedule {
            tasks: if poll == Poll::Pending {
                middle.tasks.remove(task).insert(task, left)
            } else {
                middle.tasks.remove(task)
            },
            wakers: if poll == Poll::Ready {
                middle.wakers.insert(task).remove(task)
            } else {
                middle.wakers.insert(task)
            },
            ready: middle.ready.drop_first(),
            pending: after.pending(),
            ..middle
        }),
    ensures
        settled == middle.after(Event::Polled { task, waker, poll, before, after, left }),
{
    let then = middle.after(Event::Polled { task, waker, poll, before, after, left });
    assert(settled.tasks =~= then.tasks);
    assert(settled.wakers =~= then.wakers);
}

/// Deadlock: where nothing is ready and no wait is pending, no step can be
/// taken, whatever tasks remain.
pub proof fn lemma_stuck_without_ready_or_pending<C: Suspendable>(
    stuck: Schedule<C>,
    event: Event<C>,
)
    requires
        stuck.ready.len() == 0,
        stuck.pending.len() == 0,
    ensures
        !stuck.allows(event),
{
}

/// There are no more advances than steps.
pub proof fn lemma_advances_are_steps<C: Suspendable>(events: Seq<Event<C>>)
    ensures
        advances(events) <= events.len(),
    decreases events.len(),
{
    if events.len() > 0 {
        lemma_advances_are_steps(events.drop_last());
    }
}

/// Steps that are no advances count as none.
pub proof fn lemma_no_advances<C: Suspendable>(events: Seq<Event<C>>)
    requires
        forall|i: int| 0 <= i < events.len() ==> !(#[trigger] events[i] is Advanced),
    ensures
        advances(events) == 0,
    decreases events.len(),
{
    if events.len() > 0 {
        lemma_no_advances(events.drop_last());
    }
}

/// Whatever the tasks do, steps never bring a task back, never turn the
/// clock back nor move its base, and cache a waker only for a task that is
/// there.
pub proof fn lemma_steps_only_finish_tasks<C: Suspendable>(
    start: Schedule<C>,
    events: Seq<Event<C>>,
)
    requires
        start.allows_all(events),
        start.wakers.subset_of(start.tasks.dom()),
    ensures
        start.after_all(events).tasks.dom().subset_of(start.tasks.dom()),
        start.after_all(events).wakers.subset_of(start.after_all(events).tasks.dom()),
        start.after_all(events).elapsed >= start.elapsed,
        start.after_all(events).base == start.base,
    decreases events.len(),
{
    if events.len() > 0 {
        lemma_steps_only_finish_tasks(start, events.drop_last());
    }
}

/// Steps that can be taken can be taken up to any point.
pub proof fn lemma_first_steps<C: Suspendable>(
    start: Schedule<C>,
    events: Seq<Event<C>>,
    count: int,
)
    requires
        start.allows_all(events),
        0 < count <= events.len(),
    ensures
        start.allows_all(events.take(count)),
        start.allows_all(events.take(count - 1)),
        start.after_all(events.take(count - 1)).allows(events[count - 1]),
        start.after_all(events.take(count)) == start.after_all(events.take(count - 1)).after(
            events[count - 1],
        ),
    decreases events.len() - count,
{
    if count == events.len() {
        assert(events.take(count) =~= events);
        assert(events.take(count - 1) =~= events.drop_last());
    } else {
        lemma_first_steps(start, events.drop_last(), count);
        assert(events.drop_last().take(count) =~= events.take(count));
        assert(events.drop_last().take(count - 1) =~= events.take(count - 1));
    }
}

/// Steps that can be taken one after the other can be taken in two runs.
pub proof fn lemma_split_events<C: Suspendable>(
    start: Schedule<C>,
    events: Seq<Event<C>>,
    count: int,
)
    requires
        start.allows_all(events),
        0 <= count <= events.len(),
    ensures
        start.allows_all(events.take(count)),
        start.after_all(events.take(count)).allows_all(events.skip(count)),
        start.after_all(events) == start.after_all(events.take(count)).after_all(
            events.skip(count),
        ),
    decreases events.len() - count,
{
    if count == events.len() {
        assert(events.take(count) =~= events);
        assert(events.skip(count) =~= Seq::<Event<C>>::empty());
    } else {
        lemma_split_events(start, events.drop_last(), count);
        assert(events.drop_last().take(count) =~= events.take(count));
        assert(events.skip(count).drop_last() =~= events.drop_last().skip(count));
        assert(events.skip(count).last() == events.last());
    }
}

/// A task that is ready at once is polled once and nothing else happens:
/// where the only task is queued, and every poll that it allows reports
/// `Ready` and registers nothing, at most one step can be taken; it is the
/// poll of that task, and it leaves the executor quiescent, with the clock
/// and the pending waits as they were.
pub proof fn lemma_ready_at_once<C: Suspendable>(
    start: Schedule<C>,
    steps: Seq<Event<C>>,
    id: TaskId,
)
    requires
        start.ready == seq![id],
        start.tasks.dom() == set![id],
        start.wakers.subset_of(start.tasks.dom()),
        forall|
            then: Task<C>,
            waker: TaskWaker,
            before: DeterministicReactor,
            after: DeterministicReactor,
            poll: Poll,
        | #[trigger]
            start.tasks[id].polls(&then, waker, before, after, poll) ==> poll == Poll::Ready
                && after.pending() == before.pending(),
        start.allows_all(steps),
    ensures
        steps.len() <= 1,
        steps.len() == 0 ==> !start.after_all(steps).quiescent(),
        steps.len() == 1 ==> {
            &&& steps[0] is Polled
            &&& steps[0].task() == id
            &&& start.after_all(steps).quiescent()
            &&& start.after_all(steps).pending == start.pending
            &&& start.after_all(steps).elapsed == start.elapsed
            &&& advances(steps) == 0
        },
{
    assert(start.tasks.dom().contains(id));
    if steps.len() >= 1 {
        lemma_first_steps(start, steps, 1);
        assert(steps.take(0) =~= Seq::<Event<C>>::empty());
        let first = steps[0];
        let then = start.after(first);
        assert(start.after_all(steps.take(1)) == then);
        assert(then.tasks.dom() =~= Set::<TaskId>::empty());
        assert(then.wakers =~= Set::<TaskId>::empty());
        assert(then.ready =~= Seq::<TaskId>::empty());
        if steps.len() >= 2 {
            lemma_first_steps(start, steps, 2);
            assert(!then.allows(steps[1]));
        }
        assert(steps.take(1) =~= steps);
        lemma_no_advances(steps);
    }
}

} // verus!
