//! The reactor's bookkeeping: correlation tags and the in-flight table.
//!
//! The reactor owns the kernel ring. What it decides is kept here: which tag
//! an entry is stamped with, which callback a completion fires, whether the
//! thread may block in the kernel, and whether operations remain outstanding.
use std::collections::HashMap;
use vstd::prelude::*;

verus! {

/// The tag that marks a cancelled entry. Its completion is discarded, and no
/// operation is ever registered under it.
pub const CANCELLED_TAG: u64 = u64::MAX;

/// The number of entries that the kernel ring is created with.
pub const RING_ENTRIES: u32 = 8;

/// The number of entries that the submission channel holds. A producer that
/// finds the channel full waits until the reactor has taken an entry.
pub const SUBMISSION_CAPACITY: usize = 10;

/// A failure of the reactor. The reactor does not recover from either.
#[derive(Clone, Copy, Debug, PartialEq, Eq, Structural)]
pub enum IouError {
    /// The kernel submission queue had no room for an entry.
    Push,
    /// The kernel refused a submit call; the payload is the error number.
    Io(i32),
}

/// What the reactor makes of the kernel's answer to a submit call, which is
/// the number of entries that the kernel took or an error number. The reactor
/// does not recover from a refusal: the error ends the tick.
pub open spec fn submit_outcome_of(answer: Result<usize, i32>) -> Result<usize, IouError> {
    match answer {
        Ok(taken) => Ok(taken),
        Err(errno) => Err(IouError::Io(errno)),
    }
}

/// Turns the kernel's answer to a submit call into the outcome of the tick's
/// submission step.
pub fn submit_outcome(answer: Result<usize, i32>) -> (r: Result<usize, IouError>)
    ensures
        r == submit_outcome_of(answer),
        r is Err <==> answer is Err,
{
    match answer {
        Ok(taken) => Ok(taken),
        Err(errno) => Err(IouError::Io(errno)),
    }
}

/// What the reactor does with one completion.
#[derive(Debug, PartialEq, Eq)]
pub enum Completion<C> {
    /// The completion belongs to a registered operation: its callback is to
    /// be invoked with the return code.
    Fire { callback: C, ret: i32 },
    /// The completion carries the cancellation tag and is discarded.
    Cancelled,
    /// No operation is registered under the tag; the completion is ignored.
    Unknown,
}

/// The mathematical state of a reactor.
pub ghost struct ReactorView<C> {
    /// The in-flight table: the callback registered under each tag.
    pub table: Map<u64, C>,
    /// The tag that the next registered operation receives.
    pub next_tag: u64,
}

/// One thing that happens to a reactor.
pub ghost enum ReactorEvent<C> {
    /// An entry arrived on the submission channel.
    Submission { callback: C, ring_full: bool },
    /// The kernel delivered a completion.
    Completion { tag: u64, ret: i32 },
}

impl<C> ReactorView<C> {
    /// Every registered tag was assigned before: tags are below the counter,
    /// and so never equal to the cancellation tag.
    pub open spec fn wf(self) -> bool {
        &&& self.table.dom().finite()
        &&& forall|tag: u64| #[trigger] self.table.contains_key(tag) ==> tag < self.next_tag
    }

    /// The state after a submission, and the tag that the entry is stamped
    /// with. A full ring drops the callback and changes nothing.
    pub open spec fn after_submission(self, callback: C, ring_full: bool) -> (
        ReactorView<C>,
        Result<u64, IouError>,
    ) {
        if ring_full {
            (self, Err(IouError::Push))
        } else {
            (
                ReactorView {
                    table: self.table.insert(self.next_tag, callback),
                    next_tag: (self.next_tag + 1) as u64,
                },
                Ok(self.next_tag),
            )
        }
    }

    /// The state after a completion, and what is done with it.
    pub open spec fn after_completion(self, tag: u64, ret: i32) -> (
        ReactorView<C>,
        Completion<C>,
    ) {
        if tag == CANCELLED_TAG {
            (self, Completion::Cancelled)
        } else if self.table.contains_key(tag) {
            (
                ReactorView { table: self.table.remove(tag), next_tag: self.next_tag },
                Completion::Fire { callback: self.table[tag], ret },
            )
        } else {
            (self, Completion::Unknown)
        }
    }

    /// The state after a batch of completions, processed in order, and the
    /// callbacks that fired, each with its return code, in that order.
    pub open spec fn after_completions(self, batch: Seq<(u64, i32)>) -> (
        ReactorView<C>,
        Seq<(C, i32)>,
    )
        decreases batch.len(),
    {
        if batch.len() == 0 {
            (self, Seq::empty())
        } else {
            let (before, fired) = self.after_completions(batch.drop_last());
            let (after, outcome) = before.after_completion(batch.last().0, batch.last().1);
            (
                after,
                match outcome {
                    Completion::Fire { callback, ret } => fired.push((callback, ret)),
                    _ => fired,
                },
            )
        }
    }

    /// The state after one event. A submission that would exhaust the tags is
    /// outside the reactor's contract and leaves the state as it is.
    pub open spec fn after_event(self, event: ReactorEvent<C>) -> ReactorView<C> {
        match event {
            ReactorEvent::Submission { callback, ring_full } => if self.next_tag < CANCELLED_TAG {
                self.after_submission(callback, ring_full).0
            } else {
                self
            },
            ReactorEvent::Completion { tag, ret } => self.after_completion(tag, ret).0,
        }
    }

    /// Whether `event` fires the callback registered under `tag`.
    pub open spec fn fires(self, event: ReactorEvent<C>, tag: u64) -> bool {
        match event {
            ReactorEvent::Submission { .. } => false,
            ReactorEvent::Completion { tag: completed, ret } => completed == tag
                && self.after_completion(completed, ret).1 is Fire,
        }
    }

    /// How often the callback registered under `tag` fires over a history of
    /// events.
    pub open spec fn times_fired(self, history: Seq<ReactorEvent<C>>, tag: u64) -> nat
        decreases history.len(),
    {
        if history.len() == 0 {
            0
        } else {
            let rest = self.after_event(history[0]).times_fired(history.skip(1), tag);
            if self.fires(history[0], tag) {
                1 + rest
            } else {
                rest
            }
        }
    }
}

/// The reactor's bookkeeping, generic in what it keeps as a callback.
pub struct Reactor<C> {
    events: HashMap<u64, C>,
    user_data: u64,
}

impl<C> View for Reactor<C> {
    type V = ReactorView<C>;

    closed spec fn view(&self) -> ReactorView<C> {
        ReactorView { table: self.events@, next_tag: self.user_data }
    }
}

impl<C> Reactor<C> {
    /// A reactor with nothing in flight, whose first tag is zero.
    pub fn new() -> (r: Reactor<C>)
        ensures
            r@.table == Map::<u64, C>::empty(),
            r@.next_tag == 0,
            r@.wf(),
    {
        Reactor { events: HashMap::new(), user_data: 0 }
    }

    /// The tag that the next registered operation receives.
    pub fn next_tag(&self) -> (tag: u64)
        ensures
            tag == self@.next_tag,
    {
        self.user_data
    }

    /// The number of operations in flight.
    pub fn in_flight(&self) -> (n: usize)
        requires
            self@.wf(),
        ensures
            n == self@.table.len(),
    {
        self.events.len()
    }

    /// Takes one entry off the submission channel: assigns it the next tag and
    /// registers its callback under that tag. The caller stamps the entry with
    /// the tag and pushes it into the kernel ring.
    ///
    /// When the ring has no room the submission fails with `IouError::Push`,
    /// the callback is dropped without firing and nothing is registered.
    pub fn track(&mut self, callback: C, ring_full: bool) -> (r: Result<u64, IouError>)
        requires
            old(self)@.wf(),
            old(self)@.next_tag < CANCELLED_TAG,
        ensures
            (final(self)@, r) == old(self)@.after_submission(callback, ring_full),
            final(self)@.wf(),
            r is Err <==> ring_full,
            r is Ok ==> final(self)@.table.len() == old(self)@.table.len() + 1,
    {
        if ring_full {
            return Err(IouError::Push);
        }
        let tag: u64 = self.user_data;
        self.events.insert(tag, callback);
        self.user_data = tag + 1;
        proof {
            assert(self@.table =~= old(self)@.table.insert(tag, callback));
            assert(!old(self)@.table.contains_key(tag));
        }
        Ok(tag)
    }

    /// Whether the reactor blocks in the kernel until a completion arrives:
    /// exactly when the in-flight table is not empty.
    pub fn should_block(&self) -> (block: bool)
        requires
            self@.wf(),
        ensures
            block <==> self@.table.len() > 0,
            block <==> exists|tag: u64| self@.table.contains_key(tag),
    {
        let empty = self.events.is_empty();
        proof {
            if !empty {
                let tag = choose|tag: u64| self@.table.dom().contains(tag);
                assert(self@.table.contains_key(tag));
                assert(self@.table.len() > 0);
            } else {
                assert(self@.table.dom() =~= Set::<u64>::empty());
            }
        }
        !empty
    }

    /// Processes one completion: a registered tag leaves the table and its
    /// callback is handed out to be fired with the return code; the
    /// cancellation tag and unknown tags change nothing.
    pub fn complete(&mut self, tag: u64, ret: i32) -> (r: Completion<C>)
        requires
            old(self)@.wf(),
        ensures
            (final(self)@, r) == old(self)@.after_completion(tag, ret),
            final(self)@.wf(),
            r is Fire ==> final(self)@.table.len() + 1 == old(self)@.table.len(),
            !(r is Fire) ==> final(self)@ == old(self)@,
    {
        if tag == CANCELLED_TAG {
            return Completion::Cancelled;
        }
        match self.events.remove(&tag) {
            Some(callback) => {
                proof {
                    assert(self@.table =~= old(self)@.table.remove(tag));
                }
                Completion::Fire { callback, ret }
            },
            None => {
                proof {
                    assert(self@.table =~= old(self)@.table);
                }
                Completion::Unknown
            },
        }
    }

    /// Finishes one iteration of the reactor: processes the completions that
    /// the ring delivered, in order, and reports the callbacks to fire and
    /// whether any operation remains outstanding.
    pub fn tick(&mut self, batch: &Vec<(u64, i32)>) -> (r: (Vec<(C, i32)>, bool))
        requires
            old(self)@.wf(),
        ensures
            (final(self)@, r.0@) == old(self)@.after_completions(batch@),
            final(self)@.wf(),
            r.1 <==> final(self)@.table.len() > 0,
    {
        let mut fired: Vec<(C, i32)> = Vec::new();
        let mut i: usize = 0;
        while i < batch.len()
            invariant
                i <= batch.len(),
                self@.wf(),
                (self@, fired@) == old(self)@.after_completions(batch@.take(i as int)),
            decreases batch.len() - i,
        {
            let (tag, ret) = batch[i];
            proof {
                assert(batch@.take(i + 1).drop_last() =~= batch@.take(i as int));
                assert(batch@.take(i + 1).last() == batch@[i as int]);
            }
            match self.complete(tag, ret) {
                Completion::Fire { callback, ret } => {
                    fired.push((callback, ret));
                },
                _ => {},
            }
            i = i + 1;
        }
        proof {
            assert(batch@.take(batch@.len() as int) =~= batch@);
        }
        let outstanding = self.should_block();
        (fired, outstanding)
    }
}

/// A callback that fired is no longer registered, and its tag is never
/// assigned again: over any history of submissions and completions, the
/// callback registered under a tag fires at most once.
pub proof fn lemma_tag_fires_at_most_once<C>(
    state: ReactorView<C>,
    history: Seq<ReactorEvent<C>>,
    tag: u64,
)
    requires
        state.wf(),
    ensures
        state.times_fired(history, tag) <= 1,
        tag < state.next_tag && !state.table.contains_key(tag) ==> state.times_fired(history, tag)
            == 0,
    decreases history.len(),
{
    if history.len() > 0 {
        let next = state.after_event(history[0]);
        lemma_event_preserves_wf(state, history[0]);
        lemma_tag_fires_at_most_once(next, history.skip(1), tag);
    }
}

/// A registered callback fires exactly once over any history that holds a
/// completion with its tag.
pub proof fn lemma_registered_tag_fires_exactly_once<C>(
    state: ReactorView<C>,
    history: Seq<ReactorEvent<C>>,
    tag: u64,
    at: int,
)
    requires
        state.wf(),
        state.table.contains_key(tag),
        0 <= at < history.len(),
        history[at] is Completion,
        history[at]->tag == tag,
    ensures
        state.times_fired(history, tag) == 1,
    decreases history.len(),
{
    let next = state.after_event(history[0]);
    lemma_event_preserves_wf(state, history[0]);
    if state.fires(history[0], tag) {
        lemma_tag_fires_at_most_once(next, history.skip(1), tag);
    } else {
        assert(at > 0);
        assert(next.table.contains_key(tag));
        assert(history.skip(1)[at - 1] == history[at]);
        lemma_registered_tag_fires_exactly_once(next, history.skip(1), tag, at - 1);
    }
}

/// Every event keeps the reactor's state well formed and never lowers the
/// tag counter.
pub proof fn lemma_event_preserves_wf<C>(state: ReactorView<C>, event: ReactorEvent<C>)
    requires
        state.wf(),
    ensures
        state.after_event(event).wf(),
        state.after_event(event).next_tag >= state.next_tag,
{
}

/// A completion whose tag is registered fires exactly the callback that was
/// registered under it, and a second completion with that tag fires nothing.
pub proof fn lemma_completion_fires_once<C>(
    state: ReactorView<C>,
    tag: u64,
    first: i32,
    second: i32,
)
    requires
        state.wf(),
        state.table.contains_key(tag),
    ensures
        state.after_completion(tag, first).1 == (Completion::Fire {
            callback: state.table[tag],
            ret: first,
        }),
        state.after_completion(tag, first).0.after_completion(tag, second).1
            == Completion::<C>::Unknown,
{
}

} // verus!
