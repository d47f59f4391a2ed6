//! The runtime: one executor, one reactor and the lifecycle cells of the
//! operations that tasks await, kept consistent with each other.
//!
//! A completion callback is the index of the lifecycle cell that it
//! completes, and a waker is the identifier of the task that it re-enqueues,
//! so the whole wake protocol is data that this module owns.
use crate::executor::{Executor, ExecutorView, Work};
use crate::reactor::{
    Completion, IouError, Reactor, ReactorView, CANCELLED_TAG, SUBMISSION_CAPACITY,
};
use crate::syscall::{Polled, SysCall};
use std::collections::VecDeque;
use vstd::prelude::*;

verus! {

/// The number of operations in `ops` that have not completed.
pub open spec fn count_outstanding(ops: Seq<SysCall>) -> nat
    decreases ops.len(),
{
    if ops.len() == 0 {
        0
    } else {
        count_outstanding(ops.drop_last()) + if ops.last().outstanding() {
            1nat
        } else {
            0nat
        }
    }
}

/// The mathematical state of a runtime.
pub ghost struct RuntimeView<F, E> {
    pub executor: ExecutorView<F>,
    /// The reactor; a callback is the index of the operation it completes.
    pub reactor: ReactorView<usize>,
    /// The lifecycle cell of every operation registered so far.
    pub ops: Seq<SysCall>,
    /// The submission channel: entries that the reactor has not taken yet,
    /// each with the index of its operation, oldest first.
    pub submissions: Seq<(E, usize)>,
    /// The number of operations whose entry found the kernel ring full: their
    /// callbacks were dropped, and they never complete.
    pub dropped: nat,
}

impl<F, E> RuntimeView<F, E> {
    /// Whether `op` is a registered operation that has not completed.
    pub open spec fn awaits(self, op: usize) -> bool {
        op < self.ops.len() && self.ops[op as int].outstanding()
    }

    /// The runtime's invariant. Every entry of the in-flight table and of the
    /// submission channel stands for an operation that has not completed, no
    /// operation is entered twice, and every operation that has not completed
    /// is entered unless its entry was dropped: there are as many entries and
    /// dropped entries as such operations.
    pub open spec fn inv(self) -> bool {
        &&& self.reactor.wf()
        &&& self.ops.len() <= usize::MAX
        &&& self.submissions.len() <= SUBMISSION_CAPACITY
        &&& forall|tag: u64| #[trigger]
            self.reactor.table.contains_key(tag) ==> self.awaits(self.reactor.table[tag])
        &&& forall|a: u64, b: u64|
            self.reactor.table.contains_key(a) && self.reactor.table.contains_key(b) && a != b
                ==> #[trigger] self.reactor.table[a] != #[trigger] self.reactor.table[b]
        &&& forall|i: int|
            0 <= i < self.submissions.len() ==> self.awaits((#[trigger] self.submissions[i]).1)
        &&& forall|i: int, j: int|
            0 <= i < j < self.submissions.len() ==> (#[trigger] self.submissions[i]).1 != (
            #[trigger] self.submissions[j]).1
        &&& forall|tag: u64, i: int|
            self.reactor.table.contains_key(tag) && 0 <= i < self.submissions.len()
                ==> #[trigger] self.reactor.table[tag] != (#[trigger] self.submissions[i]).1
        &&& self.reactor.table.len() + self.submissions.len() + self.dropped == count_outstanding(
            self.ops,
        )
    }

    /// Whether the submission channel holds as many entries as it can.
    pub open spec fn channel_full(self) -> bool {
        self.submissions.len() >= SUBMISSION_CAPACITY
    }

    /// The state after a leaf operation tried to register `entry`: a new
    /// operation in state `Submitted`, its entry the last on the submission
    /// channel, and the operation's index; or, with the channel full, the
    /// entry handed back and nothing changed.
    pub open spec fn after_register(self, entry: E) -> (RuntimeView<F, E>, Result<usize, E>) {
        if self.channel_full() {
            (self, Err(entry))
        } else {
            (
                RuntimeView {
                    ops: self.ops.push(SysCall::fresh()),
                    submissions: self.submissions.push((entry, self.ops.len() as usize)),
                    ..self
                },
                Ok(self.ops.len() as usize),
            )
        }
    }

    /// The state after the task `waker` polled the operation `op`, and what
    /// the poll yields.
    pub open spec fn after_poll(self, op: usize, waker: usize) -> (RuntimeView<F, E>, Polled) {
        let (cell, polled) = self.ops[op as int].after_poll(waker);
        (RuntimeView { ops: self.ops.update(op as int, cell), ..self }, polled)
    }

    /// The state after the reactor took one entry off the submission channel,
    /// and the entry with its tag, if there was one.
    pub open spec fn after_submission(self, ring_full: bool) -> (
        RuntimeView<F, E>,
        Result<Option<(E, u64)>, IouError>,
    ) {
        if self.submissions.len() == 0 {
            (self, Ok(None))
        } else {
            let (entry, op) = self.submissions[0];
            let (reactor, assigned) = self.reactor.after_submission(op, ring_full);
            (
                RuntimeView {
                    reactor,
                    submissions: self.submissions.skip(1),
                    dropped: if ring_full {
                        self.dropped + 1
                    } else {
                        self.dropped
                    },
                    ..self
                },
                match assigned {
                    Ok(tag) => Ok(Some((entry, tag))),
                    Err(e) => Err(e),
                },
            )
        }
    }

    /// The state after the kernel delivered a completion, and what the
    /// reactor did with it. A completion that fires completes the operation's
    /// cell with the return code and re-enqueues the task parked in it.
    pub open spec fn after_completion(self, tag: u64, ret: i32) -> (
        RuntimeView<F, E>,
        Completion<usize>,
    ) {
        let (reactor, outcome) = self.reactor.after_completion(tag, ret);
        match outcome {
            Completion::Fire { callback: op, .. } => {
                let (cell, wake) = self.ops[op as int].after_complete(ret);
                (
                    RuntimeView {
                        reactor,
                        ops: self.ops.update(op as int, cell),
                        executor: ExecutorView {
                            queue: match wake {
                                Some(task) => self.executor.queue.push(task),
                                None => self.executor.queue,
                            },
                            ..self.executor
                        },
                        ..self
                    },
                    outcome,
                )
            },
            _ => (self, outcome),
        }
    }
}

/// Whether the drive loop goes round again: while the executor polled a task
/// in this iteration or the reactor still has operations outstanding.
pub open spec fn keeps_running(progressed: bool, outstanding: bool) -> bool {
    progressed || outstanding
}

/// A single-threaded runtime, generic in the computations `F` that it
/// schedules and in the kernel entries `E` that it passes through.
///
/// Identifiers are never reused: the cell of an operation and the slot of a
/// task are kept, completed or empty, for the life of the runtime.
pub struct Runtime<F, E> {
    executor: Executor<F>,
    reactor: Reactor<usize>,
    ops: Vec<SysCall>,
    submissions: VecDeque<(E, usize)>,
    dropped: Ghost<nat>,
}

impl<F, E> View for Runtime<F, E> {
    type V = RuntimeView<F, E>;

    closed spec fn view(&self) -> RuntimeView<F, E> {
        RuntimeView {
            executor: self.executor@,
            reactor: self.reactor@,
            ops: self.ops@,
            submissions: self.submissions@,
            dropped: self.dropped@,
        }
    }
}

impl<F, E> Runtime<F, E> {
    /// A runtime without tasks and without operations.
    pub fn new() -> (rt: Runtime<F, E>)
        ensures
            rt@.inv(),
            rt@.executor.queue.len() == 0,
            rt@.executor.slots.len() == 0,
            !rt@.executor.progressed,
            rt@.reactor.table.len() == 0,
            rt@.reactor.next_tag == 0,
            rt@.ops.len() == 0,
            rt@.submissions.len() == 0,
            rt@.dropped == 0,
    {
        let rt = Runtime {
            executor: Executor::new(),
            reactor: Reactor::new(),
            ops: Vec::new(),
            submissions: VecDeque::new(),
            dropped: Ghost(0),
        };
        proof {
            assert(rt@.reactor.table.dom() =~= Set::<u64>::empty());
        }
        rt
    }

    /// The number of tasks spawned so far.
    pub fn tasks(&self) -> (n: usize)
        ensures
            n == self@.executor.slots.len(),
    {
        self.executor.tasks()
    }

    /// Spawns a task for `future` and queues it. Returns the task's
    /// identifier, or, when the ready queue has reached its bound, the
    /// computation.
    pub fn spawn(&mut self, future: F) -> (r: Result<usize, F>)
        ensures
            (final(self)@.executor, r) == old(self)@.executor.after_spawn(future),
            r is Err <==> old(self)@.executor.full(),
            r matches Ok(task) ==> task == old(self)@.executor.slots.len(),
            final(self)@.reactor == old(self)@.reactor,
            final(self)@.ops == old(self)@.ops,
            final(self)@.submissions == old(self)@.submissions,
            final(self)@.dropped == old(self)@.dropped,
            old(self)@.inv() ==> final(self)@.inv(),
    {
        self.executor.spawn(future)
    }

    /// Re-enqueues a task on behalf of a waker that lives outside the
    /// runtime.
    pub fn wake(&mut self, task: usize)
        ensures
            final(self)@.executor.queue == old(self)@.executor.queue.push(task),
            final(self)@.executor.slots == old(self)@.executor.slots,
            final(self)@.executor.progressed == old(self)@.executor.progressed,
            final(self)@.reactor == old(self)@.reactor,
            final(self)@.ops == old(self)@.ops,
            final(self)@.submissions == old(self)@.submissions,
            final(self)@.dropped == old(self)@.dropped,
            old(self)@.inv() ==> final(self)@.inv(),
    {
        self.executor.wake(task);
    }

    /// One step of the executor's tick: hands out the next computation to
    /// poll, or ends the tick.
    pub fn next_work(&mut self) -> (work: Work<F>)
        ensures
            (final(self)@.executor, work) == old(self)@.executor.after_step(),
            final(self)@.reactor == old(self)@.reactor,
            final(self)@.ops == old(self)@.ops,
            final(self)@.submissions == old(self)@.submissions,
            final(self)@.dropped == old(self)@.dropped,
            old(self)@.inv() ==> final(self)@.inv(),
    {
        self.executor.tick()
    }

    /// Puts back the computation of a task whose poll left it pending.
    pub fn park(&mut self, task: usize, future: F)
        requires
            task < old(self)@.executor.slots.len(),
        ensures
            final(self)@.executor.slots == old(self)@.executor.slots.update(
                task as int,
                Some(future),
            ),
            final(self)@.executor.queue == old(self)@.executor.queue,
            final(self)@.executor.progressed == old(self)@.executor.progressed,
            final(self)@.reactor == old(self)@.reactor,
            final(self)@.ops == old(self)@.ops,
            final(self)@.submissions == old(self)@.submissions,
            final(self)@.dropped == old(self)@.dropped,
            old(self)@.inv() ==> final(self)@.inv(),
    {
        self.executor.park(task, future);
    }

    /// Whether the submission channel holds as many entries as it can.
    pub fn channel_full(&self) -> (full: bool)
        ensures
            full == self@.channel_full(),
    {
        self.submissions.len() >= SUBMISSION_CAPACITY
    }

    /// Registers a kernel entry on behalf of a leaf operation: creates the
    /// operation's lifecycle cell in state `Submitted` and puts the entry on
    /// the submission channel. Returns the operation's index.
    ///
    /// When the channel is full nothing is registered and the entry comes
    /// back: the producer has to wait until the reactor has taken an entry
    /// off the channel.
    pub fn register(&mut self, entry: E) -> (r: Result<usize, E>)
        requires
            old(self)@.inv(),
        ensures
            (final(self)@, r) == old(self)@.after_register(entry),
            final(self)@.inv(),
            r is Err <==> old(self)@.channel_full(),
            r matches Ok(op) ==> {
                &&& op == old(self)@.ops.len()
                &&& final(self)@.ops[op as int] == SysCall::fresh()
                &&& final(self)@.submissions.last() == (entry, op)
                &&& final(self)@.submissions.len() == old(self)@.submissions.len() + 1
                &&& count_outstanding(final(self)@.ops) == count_outstanding(old(self)@.ops) + 1
            },
    {
        if self.submissions.len() >= SUBMISSION_CAPACITY {
            return Err(entry);
        }
        let op: usize = self.ops.len();
        self.ops.push(SysCall::new());
        self.submissions.push_back((entry, op));
        proof {
            lemma_count_push(old(self)@.ops, SysCall::fresh());
            assert(self.ops@.len() == self.ops.len());
            assert(self@ == old(self)@.after_register(entry).0);
        }
        Ok(op)
    }

    /// Whether `op` names a registered operation whose result has not been
    /// handed out yet: the operations that may be polled.
    pub fn pollable(&self, op: usize) -> (b: bool)
        ensures
            b <==> op < self@.ops.len() && !self@.ops[op as int].drained,
    {
        op < self.ops.len() && !self.ops[op].drained
    }

    /// Polls the operation `op` on behalf of the task `waker`.
    pub fn poll(&mut self, op: usize, waker: usize) -> (polled: Polled)
        requires
            old(self)@.inv(),
            op < old(self)@.ops.len(),
            !old(self)@.ops[op as int].drained,
        ensures
            (final(self)@, polled) == old(self)@.after_poll(op, waker),
            final(self)@.inv(),
    {
        let mut cell: SysCall = self.ops[op];
        let polled = cell.poll(waker);
        self.ops.set(op, cell);
        proof {
            lemma_count_update(old(self)@.ops, op as int, cell);
            assert(self@ == old(self)@.after_poll(op, waker).0);
        }
        polled
    }

    /// The first step of the reactor's tick, once per queued entry: takes the
    /// oldest entry off the submission channel, assigns it the next tag and
    /// enters its operation into the in-flight table. The caller stamps the
    /// entry with the tag and pushes it into the kernel ring.
    ///
    /// `Ok(None)` tells that the channel is drained. With a full ring the
    /// call fails with `IouError::Push` and the entry is dropped: its
    /// operation is entered nowhere and never completes.
    pub fn next_submission(&mut self, ring_full: bool) -> (r: Result<Option<(E, u64)>, IouError>)
        requires
            old(self)@.inv(),
            old(self)@.reactor.next_tag < CANCELLED_TAG,
        ensures
            (final(self)@, r) == old(self)@.after_submission(ring_full),
            final(self)@.inv(),
            r is Err <==> ring_full && old(self)@.submissions.len() > 0,
    {
        match self.submissions.pop_front() {
            None => Ok(None),
            Some((entry, op)) => {
                let assigned = self.reactor.track(op, ring_full);
                proof {
                    if ring_full {
                        self.dropped@ = self.dropped@ + 1;
                    }
                    assert(self@ == old(self)@.after_submission(ring_full).0);
                    assert forall|i: int| 0 <= i < self@.submissions.len() implies (
                    #[trigger] self@.submissions[i]) == old(self)@.submissions[i + 1] by {}
                }
                match assigned {
                    Ok(tag) => Ok(Some((entry, tag))),
                    Err(e) => Err(e),
                }
            },
        }
    }

    /// The tag that the next entry taken off the submission channel receives.
    pub fn next_tag(&self) -> (tag: u64)
        ensures
            tag == self@.reactor.next_tag,
    {
        self.reactor.next_tag()
    }

    /// The second step of the reactor's tick: whether to block in the kernel
    /// until a completion arrives. The reactor blocks exactly when the
    /// in-flight table is not empty.
    pub fn should_block(&self) -> (block: bool)
        requires
            self@.inv(),
        ensures
            block <==> self@.reactor.table.len() > 0,
    {
        self.reactor.should_block()
    }

    /// The third step of the reactor's tick, once per completion: a
    /// registered tag leaves the in-flight table, the cell of its operation
    /// becomes `Completed`, and the task parked in the cell is re-enqueued.
    pub fn complete(&mut self, tag: u64, ret: i32) -> (r: Completion<usize>)
        requires
            old(self)@.inv(),
        ensures
            (final(self)@, r) == old(self)@.after_completion(tag, ret),
            final(self)@.inv(),
    {
        let outcome = self.reactor.complete(tag, ret);
        match outcome {
            Completion::Fire { callback: op, ret: code } => {
                assert(old(self)@.awaits(op));
                let mut cell: SysCall = self.ops[op];
                let wake = cell.complete(code);
                self.ops.set(op, cell);
                match wake {
                    Some(task) => {
                        self.executor.wake(task);
                    },
                    None => {},
                }
                proof {
                    lemma_count_update(old(self)@.ops, op as int, cell);
                    assert(self@ == old(self)@.after_completion(tag, ret).0);
                }
                Completion::Fire { callback: op, ret: code }
            },
            Completion::Cancelled => Completion::Cancelled,
            Completion::Unknown => Completion::Unknown,
        }
    }

    /// The number of operations in flight: the tags in the in-flight table.
    pub fn in_flight(&self) -> (n: usize)
        requires
            self@.inv(),
        ensures
            n == self@.reactor.table.len(),
    {
        self.reactor.in_flight()
    }

    /// The number of entries on the submission channel.
    pub fn queued(&self) -> (n: usize)
        ensures
            n == self@.submissions.len(),
    {
        self.submissions.len()
    }

    /// The number of operations that have not completed: those in state
    /// `Submitted` or `Waiting`.
    pub fn awaited(&self) -> (n: usize)
        ensures
            n == count_outstanding(self@.ops),
    {
        let mut n: usize = 0;
        let mut i: usize = 0;
        while i < self.ops.len()
            invariant
                i <= self.ops.len(),
                n <= i,
                n == count_outstanding(self.ops@.take(i as int)),
            decreases self.ops.len() - i,
        {
            proof {
                assert(self.ops@.take(i + 1).drop_last() =~= self.ops@.take(i as int));
            }
            if self.ops[i].is_outstanding() {
                n = n + 1;
            }
            i = i + 1;
        }
        proof {
            assert(self.ops@.take(self.ops@.len() as int) =~= self.ops@);
        }
        n
    }

    /// The last step of the reactor's tick: whether any operation is still in
    /// flight.
    pub fn outstanding(&self) -> (b: bool)
        requires
            self@.inv(),
        ensures
            b <==> self@.reactor.table.len() > 0,
    {
        self.reactor.should_block()
    }

    /// Whether the drive loop goes round again after an iteration in which
    /// the executor's tick reported `progressed` and the reactor's tick
    /// reported `outstanding`.
    pub fn keep_running(progressed: bool, outstanding: bool) -> (again: bool)
        ensures
            again == keeps_running(progressed, outstanding),
    {
        progressed || outstanding
    }
}

/// Appending a cell adds one to the count exactly when the cell has not
/// completed.
pub proof fn lemma_count_push(ops: Seq<SysCall>, cell: SysCall)
    ensures
        count_outstanding(ops.push(cell)) == count_outstanding(ops) + if cell.outstanding() {
            1nat
        } else {
            0nat
        },
{
    assert(ops.push(cell).drop_last() =~= ops);
}

/// Replacing one cell changes the count by the difference between the new
/// cell and the old one.
pub proof fn lemma_count_update(ops: Seq<SysCall>, i: int, cell: SysCall)
    requires
        0 <= i < ops.len(),
    ensures
        count_outstanding(ops.update(i, cell)) + (if ops[i].outstanding() {
            1nat
        } else {
            0nat
        }) == count_outstanding(ops) + (if cell.outstanding() {
            1nat
        } else {
            0nat
        }),
    decreases ops.len(),
{
    if i == ops.len() - 1 {
        assert(ops.update(i, cell).drop_last() =~= ops.drop_last());
    } else {
        assert(ops.update(i, cell).drop_last() =~= ops.drop_last().update(i, cell));
        lemma_count_update(ops.drop_last(), i, cell);
    }
}

/// Once the reactor has drained the submission channel, and as long as no
/// entry found the ring full, the in-flight table holds exactly as many tags
/// as there are operations in state `Submitted` or `Waiting`.
pub proof fn lemma_in_flight_equals_outstanding<F, E>(rt: RuntimeView<F, E>)
    requires
        rt.inv(),
        rt.submissions.len() == 0,
        rt.dropped == 0,
    ensures
        rt.reactor.table.len() == count_outstanding(rt.ops),
{
}

/// A runtime with no pending task, no queued entry and no operation in
/// flight stops within one drive-loop iteration. The executor's tick finds at
/// most stale wake-ups in its queue: its step polls nothing, takes nothing
/// out of a slot and ends the tick, reporting what the tick did before. The
/// reactor neither takes an entry nor blocks. So the iteration that starts in
/// such a state reports no progress and nothing outstanding, and the loop
/// does not go round again; an iteration that is under way ends in such a
/// state, and the one after it is the last.
pub proof fn lemma_idle_runtime_stops<F, E>(rt: RuntimeView<F, E>)
    requires
        rt.inv(),
        rt.executor.stale_prefix(rt.executor.queue) == rt.executor.queue.len(),
        rt.submissions.len() == 0,
        rt.reactor.table.len() == 0,
    ensures
        rt.executor.after_step().1 == (Work::<F>::Idle { progressed: rt.executor.progressed }),
        rt.executor.after_step().0.slots == rt.executor.slots,
        rt.executor.after_step().0.queue.len() == 0,
        !rt.executor.after_step().0.progressed,
        rt.executor.after_step().0.after_step().1 == (Work::<F>::Idle { progressed: false }),
        rt.after_submission(false) == (rt, Ok::<Option<(E, u64)>, IouError>(None)),
        !(rt.reactor.table.len() > 0),
        !rt.executor.progressed ==> !keeps_running(
            rt.executor.progressed,
            rt.reactor.table.len() > 0,
        ),
        !keeps_running(false, rt.reactor.table.len() > 0),
        count_outstanding(rt.ops) == rt.dropped,
{
}

/// The submission channel holds ten entries: from an empty channel, ten
/// registrations are taken in without a tick of the reactor, and the one
/// after them is refused until the reactor has taken an entry.
pub proof fn lemma_channel_holds_ten<F, E>(rt: RuntimeView<F, E>, entry: E)
    requires
        rt.inv(),
    ensures
        rt.submissions.len() < 10 <==> rt.after_register(entry).1 is Ok,
        rt.submissions.len() == 10 ==> rt.after_register(entry) == (rt, Err::<usize, E>(entry)),
        rt.submissions.len() == 10 && rt.reactor.next_tag < CANCELLED_TAG
            ==> rt.after_submission(false).0.after_register(entry).1 is Ok,
{
}

} // verus!
