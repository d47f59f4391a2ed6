//! Round-robin dispatch of accepted connections to worker runtimes.
use vstd::prelude::*;

verus! {

/// The worker that receives the `i`-th connection after the one that went to
/// the worker before `start`.
pub open spec fn nth_pick(start: nat, workers: nat, i: nat) -> nat
    recommends
        workers > 0,
{
    (start + i) % workers
}

/// The dispatcher of the accept loop: it names the worker that receives the
/// next connection.
#[derive(Clone, Copy, Debug, PartialEq, Eq, Structural)]
pub struct RoundRobin {
    /// The worker that receives the next connection.
    pub next_worker: usize,
    /// The number of workers.
    pub workers: usize,
}

impl RoundRobin {
    /// There is a worker, and the next worker is one of them.
    pub open spec fn wf(self) -> bool {
        self.next_worker < self.workers
    }

    /// The dispatcher of a server that runs on `threads` threads: one thread
    /// accepts, each of the others is a worker, and the first connection goes
    /// to the first worker.
    pub fn for_threads(threads: usize) -> (d: RoundRobin)
        requires
            threads >= 2,
        ensures
            d.wf(),
            d.workers == threads - 1,
            d.next_worker == 0,
    {
        RoundRobin { next_worker: 0, workers: threads - 1 }
    }

    /// Names the worker that receives the next connection, and moves on to
    /// the worker after it, or back to the first after the last.
    pub fn pick(&mut self) -> (worker: usize)
        requires
            old(self).wf(),
        ensures
            worker == old(self).next_worker,
            final(self).workers == old(self).workers,
            final(self).next_worker == nth_pick(
                old(self).next_worker as nat,
                old(self).workers as nat,
                1,
            ),
            final(self).wf(),
    {
        let worker: usize = self.next_worker;
        if worker == self.workers - 1 {
            self.next_worker = 0;
        } else {
            self.next_worker = worker + 1;
        }
        proof {
            lemma_pick_in_range(worker as nat, self.workers as nat, 1);
        }
        worker
    }
}

/// A pick is the sum of the start and the offset, less the number of workers
/// once the sum has reached it.
pub proof fn lemma_pick_in_range(start: nat, workers: nat, i: nat)
    requires
        start < workers,
        i <= workers,
    ensures
        nth_pick(start, workers, i) == if start + i < workers {
            start + i
        } else {
            (start + i - workers) as nat
        },
{
    if start + i < workers {
        vstd::arithmetic::div_mod::lemma_small_mod(start + i, workers);
    } else {
        vstd::arithmetic::div_mod::lemma_small_mod((start + i - workers) as nat, workers);
        vstd::arithmetic::div_mod::lemma_mod_add_multiples_vanish(
            start + i - workers,
            workers as int,
        );
    }
}

/// Dispatch is strictly round-robin: among as many consecutive connections
/// as there are workers, every worker receives exactly one.
pub proof fn lemma_round_serves_each_worker_once(start: nat, workers: nat, worker: nat)
    requires
        start < workers,
        worker < workers,
    ensures
        turn_within(start, workers, worker, workers),
        forall|i: nat, j: nat|
            i < workers && j < workers && nth_pick(start, workers, i) == worker && nth_pick(
                start,
                workers,
                j,
            ) == worker ==> i == j,
{
    let offset: nat = if worker >= start {
        (worker - start) as nat
    } else {
        (worker + workers - start) as nat
    };
    lemma_pick_in_range(start, workers, offset);
    assert(offset < workers && nth_pick(start, workers, offset) == worker);
    assert forall|i: nat, j: nat|
        i < workers && j < workers && nth_pick(start, workers, i) == worker && nth_pick(
            start,
            workers,
            j,
        ) == worker implies i == j by {
        lemma_pick_in_range(start, workers, i);
        lemma_pick_in_range(start, workers, j);
    }
}

/// The number of the first `n` connections that go to `worker`.
pub open spec fn served(start: nat, workers: nat, worker: nat, n: nat) -> nat
    decreases n,
{
    if n == 0 {
        0
    } else {
        served(start, workers, worker, (n - 1) as nat) + if nth_pick(
            start,
            workers,
            (n - 1) as nat,
        ) == worker {
            1nat
        } else {
            0nat
        }
    }
}

/// The connection `i` places after the `m`-th goes where the `i`-th goes
/// when the dispatcher starts at the worker of the `m`-th.
pub proof fn lemma_picks_restart(start: nat, workers: nat, m: nat, i: nat)
    requires
        workers > 0,
    ensures
        nth_pick(nth_pick(start, workers, m), workers, i) == nth_pick(start, workers, m + i),
{
    vstd::arithmetic::div_mod::lemma_add_mod_noop((start + m) as int, i as int, workers as int);
    vstd::arithmetic::div_mod::lemma_mod_twice((start + m) as int, workers as int);
    vstd::arithmetic::div_mod::lemma_add_mod_noop(
        ((start + m) % workers) as int,
        i as int,
        workers as int,
    );
}

/// Whether the turn of `worker` comes within the first `len` connections of
/// a dispatcher that starts at `from`.
pub open spec fn turn_within(from: nat, workers: nat, worker: nat, len: nat) -> bool {
    exists|i: nat| i < len && #[trigger] nth_pick(from, workers, i) == worker
}

/// Among the `len` connections that follow the first `m`, with `len` no more
/// than the number of workers, a worker receives one if its turn comes within
/// them, and none otherwise.
pub proof fn lemma_served_within_round(start: nat, workers: nat, worker: nat, m: nat, len: nat)
    requires
        start < workers,
        worker < workers,
        len <= workers,
    ensures
        served(start, workers, worker, m + len) == served(start, workers, worker, m)
            + if turn_within(nth_pick(start, workers, m), workers, worker, len) {
            1nat
        } else {
            0nat
        },
    decreases len,
{
    let from = nth_pick(start, workers, m);
    if len > 0 {
        let before = (len - 1) as nat;
        lemma_served_within_round(start, workers, worker, m, before);
        vstd::arithmetic::div_mod::lemma_mod_bound((start + m) as int, workers as int);
        lemma_picks_restart(start, workers, m, before);
        lemma_round_serves_each_worker_once(from, workers, worker);
        let last_hits = nth_pick(from, workers, before) == worker;
        let earlier = turn_within(from, workers, worker, before);
        let within = turn_within(from, workers, worker, len);
        assert(m + len - 1 == m + before);
        if last_hits {
            assert(within);
            if earlier {
                let i = choose|i: nat|
                    i < before && #[trigger] nth_pick(from, workers, i) == worker;
                assert(i == before);
            }
        } else {
            if within {
                let i = choose|i: nat| i < len && #[trigger] nth_pick(from, workers, i) == worker;
                assert(i < before);
            }
            if earlier {
                let i = choose|i: nat|
                    i < before && #[trigger] nth_pick(from, workers, i) == worker;
                assert(i < len);
            }
        }
    } else {
        assert(m + len == m);
    }
}

/// Dispatch is fair: of the connections of any number of whole rounds, every
/// worker receives exactly one per round.
pub proof fn lemma_rounds_are_fair(start: nat, workers: nat, worker: nat, rounds: nat)
    requires
        start < workers,
        worker < workers,
    ensures
        served(start, workers, worker, rounds * workers) == rounds,
    decreases rounds,
{
    if rounds > 0 {
        let m = ((rounds - 1) * workers) as nat;
        assert(rounds * workers == m + workers) by (nonlinear_arith)
            requires
                rounds > 0,
                m == (rounds - 1) * workers,
        ;
        lemma_rounds_are_fair(start, workers, worker, (rounds - 1) as nat);
        lemma_served_within_round(start, workers, worker, m, workers);
        let from = nth_pick(start, workers, m);
        vstd::arithmetic::div_mod::lemma_mod_bound((start + m) as int, workers as int);
        lemma_round_serves_each_worker_once(from, workers, worker);
        assert(turn_within(from, workers, worker, workers));
    } else {
        assert(rounds * workers == 0) by (nonlinear_arith)
            requires
                rounds == 0,
        ;
    }
}

} // verus!
