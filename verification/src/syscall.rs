//! The three-state lifecycle that couples one kernel operation to one
//! suspended task.
use vstd::prelude::*;

verus! {

/// The error number of a kernel operation that failed.
#[derive(Clone, Copy, Debug, PartialEq, Eq, Structural)]
pub struct OsError {
    pub errno: u32,
}

/// Where a kernel operation stands, as seen by the task that awaits it.
///
/// A waker is the identifier of the task that it re-enqueues.
#[derive(Clone, Copy, Debug, PartialEq, Eq, Structural)]
pub enum Lifecycle {
    /// Registered with the reactor; the task has not polled yet.
    Submitted,
    /// The task is suspended; the payload is the most recent waker it presented.
    Waiting(usize),
    /// The kernel's return code has arrived.
    Completed(i32),
}

/// What one poll of a syscall future yields.
#[derive(Clone, Copy, Debug, PartialEq, Eq)]
pub enum Polled {
    Pending,
    Ready(Result<u32, OsError>),
}

/// The awaited value that a kernel return code stands for: the code itself
/// when it is non-negative, its negation as an error number otherwise.
pub open spec fn outcome_of(ret: i32) -> Result<u32, OsError> {
    if ret >= 0 {
        Ok(ret as u32)
    } else {
        Err(OsError { errno: (-(ret as int)) as u32 })
    }
}

/// The awaited value of a kernel return code.
pub fn outcome(ret: i32) -> (r: Result<u32, OsError>)
    ensures
        r == outcome_of(ret),
        ret >= 0 ==> r == Ok::<u32, OsError>(ret as u32),
        ret < 0 ==> r is Err && r->Err_0.errno as int == -(ret as int),
{
    if ret >= 0 {
        Ok(ret as u32)
    } else {
        let wide: i64 = ret as i64;
        Err(OsError { errno: (0 - wide) as u32 })
    }
}

/// The state of one outstanding kernel operation.
#[derive(Clone, Copy, Debug, PartialEq, Eq, Structural)]
pub struct SysCall {
    /// The lifecycle state.
    pub state: Lifecycle,
    /// Whether a poll has already handed the result to the task.
    pub drained: bool,
}

impl SysCall {
    /// An operation that was just handed to the reactor.
    pub open spec fn fresh() -> SysCall {
        SysCall { state: Lifecycle::Submitted, drained: false }
    }

    /// Whether the reactor still owes this operation its completion.
    pub open spec fn outstanding(self) -> bool {
        !(self.state is Completed)
    }

    /// The state after a poll by the task `waker`, and what the poll yields.
    pub open spec fn after_poll(self, waker: usize) -> (SysCall, Polled) {
        match self.state {
            Lifecycle::Submitted | Lifecycle::Waiting(_) => (
                SysCall { state: Lifecycle::Waiting(waker), drained: self.drained },
                Polled::Pending,
            ),
            Lifecycle::Completed(ret) => (
                SysCall { state: self.state, drained: true },
                Polled::Ready(outcome_of(ret)),
            ),
        }
    }

    /// The state after the completion callback ran with `ret`, and the waker
    /// that the callback invokes, if any.
    pub open spec fn after_complete(self, ret: i32) -> (SysCall, Option<usize>) {
        (
            SysCall { state: Lifecycle::Completed(ret), drained: self.drained },
            match self.state {
                Lifecycle::Waiting(waker) => Some(waker),
                _ => None,
            },
        )
    }

    /// Starts the lifecycle of an operation that was handed to the reactor.
    pub fn new() -> (s: SysCall)
        ensures
            s == SysCall::fresh(),
    {
        SysCall { state: Lifecycle::Submitted, drained: false }
    }

    /// Whether the operation has not completed yet.
    pub fn is_outstanding(&self) -> (b: bool)
        ensures
            b == self.outstanding(),
    {
        match self.state {
            Lifecycle::Completed(_) => false,
            _ => true,
        }
    }

    /// Polls the operation on behalf of the task `waker`.
    ///
    /// Before completion the poll parks the task: the state becomes
    /// `Waiting(waker)`, whatever waker was stored before. After completion it
    /// yields the result, once: polling again after `Ready` is outside the
    /// contract.
    pub fn poll(&mut self, waker: usize) -> (r: Polled)
        requires
            !old(self).drained,
        ensures
            (*final(self), r) == old(self).after_poll(waker),
            r is Ready <==> old(self).state is Completed,
            final(self).drained <==> r is Ready,
    {
        match self.state {
            Lifecycle::Submitted => {
                self.state = Lifecycle::Waiting(waker);
                Polled::Pending
            },
            Lifecycle::Waiting(current) => {
                if current != waker {
                    self.state = Lifecycle::Waiting(waker);
                }
                Polled::Pending
            },
            Lifecycle::Completed(ret) => {
                self.drained = true;
                Polled::Ready(outcome(ret))
            },
        }
    }

    /// Runs the completion callback: stores the kernel's return code and
    /// hands back the waker to invoke, if a task was parked.
    ///
    /// A callback fires once, so the operation must not have completed before.
    pub fn complete(&mut self, ret: i32) -> (wake: Option<usize>)
        requires
            old(self).outstanding(),
        ensures
            (*final(self), wake) == old(self).after_complete(ret),
            wake is Some <==> old(self).state is Waiting,
            !final(self).outstanding(),
    {
        let previous = self.state;
        self.state = Lifecycle::Completed(ret);
        match previous {
            Lifecycle::Waiting(waker) => Some(waker),
            _ => None,
        }
    }
}

/// A completion that arrives before the first poll wakes nobody, and the
/// first poll is ready at once with the completion's value.
pub proof fn lemma_completion_before_first_poll(ret: i32, waker: usize)
    ensures
        ({
            let (completed, wake) = SysCall::fresh().after_complete(ret);
            let (drained, polled) = completed.after_poll(waker);
            &&& wake is None
            &&& polled == Polled::Ready(outcome_of(ret))
            &&& drained.drained
        }),
{
}

/// Completion after a poll: the waker installed by that poll is handed out by
/// the completion, the completed state holds no waker any more, and the next
/// poll observes the completion's value.
pub proof fn lemma_completion_wakes_once(s: SysCall, waker: usize, next: usize, ret: i32)
    requires
        s.outstanding(),
        !s.drained,
    ensures
        ({
            let (parked, first) = s.after_poll(waker);
            let (completed, wake) = parked.after_complete(ret);
            let (after, second) = completed.after_poll(next);
            &&& first == Polled::Pending
            &&& wake == Some(waker)
            &&& !(completed.state is Waiting)
            &&& second == Polled::Ready(outcome_of(ret))
            &&& after.state == Lifecycle::Completed(ret)
        }),
{
}

/// Re-polling before completion replaces the stored waker: the completion
/// invokes the waker of the latest poll and no other.
pub proof fn lemma_latest_waker_is_woken(s: SysCall, earlier: usize, latest: usize, ret: i32)
    requires
        s.outstanding(),
    ensures
        ({
            let (first, _) = s.after_poll(earlier);
            let (second, _) = first.after_poll(latest);
            let (_, wake) = second.after_complete(ret);
            wake == Some(latest)
        }),
{
}

/// Once a poll has returned `Ready`, the operation is marked as drained, and
/// a drained operation does not meet the precondition of `poll`.
pub proof fn lemma_ready_is_final(s: SysCall, waker: usize)
    requires
        !s.drained,
    ensures
        s.after_poll(waker).1 is Ready ==> s.after_poll(waker).0.drained,
        s.after_poll(waker).1 is Ready ==> s.after_poll(waker).0.state == s.state,
{
}

} // verus!
