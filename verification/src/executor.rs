//! The executor's bookkeeping: the queue of ready tasks and the slot that
//! holds each task's computation between polls.
//!
//! Polling a computation is the caller's work. The executor decides which
//! task is polled next, and elides the polls of tasks whose slot is empty.
use std::collections::VecDeque;
use vstd::prelude::*;

verus! {

/// The number of entries that the ready queue holds before spawning is held
/// back: the bound against runaway spawn loops.
pub const MAX_QUEUED_TASKS: usize = 10_000;

/// One step of an executor tick.
#[derive(Debug, PartialEq, Eq)]
pub enum Work<F> {
    /// The computation of `task` was taken out of its slot and is to be
    /// polled once, with a waker bound to `task`.
    Poll { task: usize, future: F },
    /// The ready queue is drained and the tick is over; `progressed` tells
    /// whether the tick polled any task.
    Idle { progressed: bool },
}

/// The mathematical state of an executor.
pub ghost struct ExecutorView<F> {
    /// The ready queue, oldest entry first.
    pub queue: Seq<usize>,
    /// The computation slot of each task, by task identifier.
    pub slots: Seq<Option<F>>,
    /// Whether the tick in progress has polled a task.
    pub progressed: bool,
}

impl<F> ExecutorView<F> {
    /// Whether the slot of `task` holds a computation.
    pub open spec fn occupied(self, task: usize) -> bool {
        task < self.slots.len() && self.slots[task as int] is Some
    }

    /// The number of entries at the head of `queue` whose slot is empty:
    /// the duplicate wake-ups that the next step skips.
    pub open spec fn stale_prefix(self, queue: Seq<usize>) -> nat
        decreases queue.len(),
    {
        if queue.len() == 0 || self.occupied(queue[0]) {
            0
        } else {
            1 + self.stale_prefix(queue.skip(1))
        }
    }

    /// Whether the ready queue has reached its bound, so that no task can be
    /// spawned.
    pub open spec fn full(self) -> bool {
        self.queue.len() >= MAX_QUEUED_TASKS
    }

    /// The state after an attempt to spawn a task for `future`: the task's
    /// identifier and the task queued behind the others, or, with the queue
    /// full, the computation handed back and nothing changed.
    pub open spec fn after_spawn(self, future: F) -> (ExecutorView<F>, Result<usize, F>) {
        if self.full() {
            (self, Err(future))
        } else {
            (
                ExecutorView {
                    slots: self.slots.push(Some(future)),
                    queue: self.queue.push(self.slots.len() as usize),
                    ..self
                },
                Ok(self.slots.len() as usize),
            )
        }
    }

    /// The state after one step of a tick, and what the step hands out.
    pub open spec fn after_step(self) -> (ExecutorView<F>, Work<F>) {
        let stale = self.stale_prefix(self.queue) as int;
        if stale < self.queue.len() {
            let task = self.queue[stale];
            (
                ExecutorView {
                    queue: self.queue.skip(stale + 1),
                    slots: self.slots.update(task as int, None),
                    progressed: true,
                },
                Work::Poll { task, future: self.slots[task as int]->Some_0 },
            )
        } else {
            (
                ExecutorView { queue: Seq::empty(), slots: self.slots, progressed: false },
                Work::Idle { progressed: self.progressed },
            )
        }
    }
}

/// The executor's bookkeeping, generic in the computations it schedules.
pub struct Executor<F> {
    ready_queue: VecDeque<usize>,
    slots: Vec<Option<F>>,
    progressed: bool,
}

impl<F> View for Executor<F> {
    type V = ExecutorView<F>;

    closed spec fn view(&self) -> ExecutorView<F> {
        ExecutorView {
            queue: self.ready_queue@,
            slots: self.slots@,
            progressed: self.progressed,
        }
    }
}

impl<F> Executor<F> {
    /// An executor without tasks.
    pub fn new() -> (e: Executor<F>)
        ensures
            e@.queue == Seq::<usize>::empty(),
            e@.slots == Seq::<Option<F>>::empty(),
            !e@.progressed,
    {
        Executor { ready_queue: VecDeque::new(), slots: Vec::new(), progressed: false }
    }

    /// The number of tasks spawned so far.
    pub fn tasks(&self) -> (n: usize)
        ensures
            n == self@.slots.len(),
    {
        self.slots.len()
    }

    /// Whether the ready queue has reached its bound.
    pub fn is_full(&self) -> (full: bool)
        ensures
            full == self@.full(),
    {
        self.ready_queue.len() >= MAX_QUEUED_TASKS
    }

    /// Wraps a computation in a new task and queues the task. Returns the
    /// task's identifier, or, when the ready queue has reached its bound, the
    /// computation: the spawner has to wait until the executor has taken
    /// tasks off the queue.
    pub fn spawn(&mut self, future: F) -> (r: Result<usize, F>)
        ensures
            (final(self)@, r) == old(self)@.after_spawn(future),
            r is Err <==> old(self)@.full(),
            r matches Ok(task) ==> task == old(self)@.slots.len() && final(self)@.occupied(task),
    {
        if self.ready_queue.len() >= MAX_QUEUED_TASKS {
            return Err(future);
        }
        let task: usize = self.slots.len();
        self.slots.push(Some(future));
        self.ready_queue.push_back(task);
        Ok(task)
    }

    /// Re-enqueues a task, as its waker does. Waking a task twice queues it
    /// twice; the second entry is skipped when its slot is found empty. A
    /// wake-up is taken in whatever the length of the queue: the bound holds
    /// back spawning only, so that no wake-up is lost.
    pub fn wake(&mut self, task: usize)
        ensures
            final(self)@.queue == old(self)@.queue.push(task),
            final(self)@.slots == old(self)@.slots,
            final(self)@.progressed == old(self)@.progressed,
    {
        self.ready_queue.push_back(task);
    }

    /// Advances the tick by one step: skips the queued tasks whose slot is
    /// empty, then either takes the computation of the first task that has
    /// one out of its slot and hands it out to be polled, or, with the queue
    /// drained, ends the tick and reports whether it polled any task.
    pub fn tick(&mut self) -> (work: Work<F>)
        ensures
            (final(self)@, work) == old(self)@.after_step(),
            work is Poll ==> old(self)@.occupied(work->task) && !final(self)@.occupied(work->task),
    {
        let ghost start = self@;
        loop
            invariant
                start == old(self)@,
                self@.slots == start.slots,
                self@.progressed == start.progressed,
                self@.queue.len() <= start.queue.len(),
                self@.queue == start.queue.skip(start.queue.len() - self@.queue.len()),
                start.stale_prefix(start.queue) == (start.queue.len() - self@.queue.len())
                    + start.stale_prefix(self@.queue),
            decreases self.ready_queue.len(),
        {
            let ghost before = self@;
            match self.ready_queue.pop_front() {
                None => {
                    let progressed = self.progressed;
                    self.progressed = false;
                    proof {
                        assert(self@.queue =~= Seq::<usize>::empty());
                        assert(start.stale_prefix(before.queue) == 0);
                    }
                    return Work::Idle { progressed };
                },
                Some(task) => {
                    let ghost skipped = start.queue.len() - before.queue.len();
                    proof {
                        assert(self@.queue =~= start.queue.skip(skipped + 1));
                        assert(before.queue.skip(1) =~= self@.queue);
                        assert(task == start.queue[skipped]);
                        assert(task == before.queue[0]);
                        assert(start.stale_prefix(before.queue) == if start.occupied(task) {
                            0
                        } else {
                            1 + start.stale_prefix(before.queue.skip(1))
                        });
                    }
                    if task < self.slots.len() {
                        let taken = self.take_slot(task);
                        match taken {
                            Some(future) => {
                                self.progressed = true;
                                return Work::Poll { task, future };
                            },
                            None => {
                                proof {
                                    assert(self@.slots =~= start.slots);
                                }
                            },
                        }
                    }
                },
            }
        }
    }

    /// Puts the computation of a task back into its slot, after a poll that
    /// left it pending. A computation that finished is not put back: its slot
    /// stays empty.
    pub fn park(&mut self, task: usize, future: F)
        requires
            task < old(self)@.slots.len(),
        ensures
            final(self)@.slots == old(self)@.slots.update(task as int, Some(future)),
            final(self)@.queue == old(self)@.queue,
            final(self)@.progressed == old(self)@.progressed,
    {
        self.slots.set(task, Some(future));
    }

    fn take_slot(&mut self, task: usize) -> (taken: Option<F>)
        requires
            task < old(self).slots@.len(),
        ensures
            taken == old(self).slots@[task as int],
            final(self).slots@ == old(self).slots@.update(task as int, None),
            final(self).ready_queue == old(self).ready_queue,
            final(self).progressed == old(self).progressed,
    {
        let mut taken: Option<F> = None;
        let slot: &mut Option<F> = &mut self.slots[task];
        std::mem::swap(slot, &mut taken);
        taken
    }
}

/// A task whose computation was handed out and not put back has an empty
/// slot, and a later wake-up of it polls nothing: with only that task queued,
/// the step ends the tick without taking anything out of a slot.
pub proof fn lemma_finished_task_is_skipped<F>(state: ExecutorView<F>, task: usize)
    requires
        !state.occupied(task),
        state.queue == seq![task],
    ensures
        state.after_step().1 == (Work::<F>::Idle { progressed: state.progressed }),
        state.after_step().0.slots == state.slots,
{
    assert(state.queue.skip(1).len() == 0);
    assert(state.stale_prefix(state.queue.skip(1)) == 0);
}

/// An executor whose queue is empty polls nothing: the step ends the tick
/// and leaves every slot as it was.
pub proof fn lemma_empty_queue_is_idle<F>(state: ExecutorView<F>)
    requires
        state.queue.len() == 0,
    ensures
        state.after_step().1 == (Work::<F>::Idle { progressed: state.progressed }),
        state.after_step().0.slots == state.slots,
        state.after_step().0.queue.len() == 0,
{
}

} // verus!
