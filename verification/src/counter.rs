//! A shared counter incremented by a fixed number of workers.
//!
//! The counter itself only ever grows by one per increment, so its final
//! value is the number of increments performed, whatever order the workers'
//! lock acquisitions take. `lemma_schedule_total` states that independence:
//! any interleaving in which each worker performs its full quota of
//! increments ends at exactly workers times quota. `run_counter` performs the
//! same increments serially and returns that value; a caller that wants real
//! parallelism puts a `Counter` behind its own lock and calls `increment`
//! from each worker.

use vstd::prelude::*;

verus! {

/// A single integer counter that only `increment` ever changes.
pub struct Counter {
    count: usize,
}

impl Counter {
    /// The counter's current abstract value.
    pub closed spec fn spec_count(&self) -> nat {
        self.count as nat
    }

    /// Creates a counter at zero.
    pub fn new() -> (r: Self)
        ensures
            r.spec_count() == 0,
    {
        Counter { count: 0 }
    }

    /// Adds one to the counter.
    pub fn increment(&mut self)
        requires
            old(self).spec_count() < usize::MAX,
        ensures
            final(self).spec_count() == old(self).spec_count() + 1,
    {
        self.count = self.count + 1;
    }

    /// Reads the counter.
    pub fn get(&self) -> (r: usize)
        ensures
            r == self.spec_count(),
    {
        self.count
    }
}

/// The counter value after the increments of `schedule` have run, one by one,
/// starting from zero: each event adds exactly one.
pub open spec fn counter_after(schedule: Seq<int>) -> nat
    decreases schedule.len(),
{
    if schedule.len() == 0 {
        0
    } else {
        counter_after(schedule.drop_last()) + 1
    }
}

/// The events that belong to worker `t`.
pub open spec fn is_worker(t: int) -> spec_fn(int) -> bool {
    |x: int| x == t
}

/// The events that belong to any worker but `t`.
spec fn is_not_worker(t: int) -> spec_fn(int) -> bool {
    |x: int| x != t
}

/// How many events of `schedule` belong to worker `t`.
pub open spec fn occurrences(schedule: Seq<int>, t: int) -> nat {
    schedule.filter(is_worker(t)).len()
}

/// A sequence splits into the part a predicate keeps and the part it drops.
proof fn lemma_filter_split<A>(s: Seq<A>, p: spec_fn(A) -> bool, q: spec_fn(A) -> bool)
    requires
        forall|x: A| #[trigger] q(x) == !p(x),
    ensures
        s.len() == s.filter(p).len() + s.filter(q).len(),
    decreases s.len(),
{
    reveal(Seq::filter);
    if s.len() > 0 {
        lemma_filter_split(s.drop_last(), p, q);
        assert(q(s.last()) == !p(s.last()));
    }
}

/// Every element of a filtered sequence occurs in the original.
proof fn lemma_filter_elem<A>(s: Seq<A>, p: spec_fn(A) -> bool, i: int)
    requires
        0 <= i < s.filter(p).len(),
    ensures
        s.contains(s.filter(p)[i]),
    decreases s.len(),
{
    reveal(Seq::filter);
    if s.len() > 0 {
        let s0 = s.drop_last();
        let f0 = s0.filter(p);
        if i < f0.len() {
            lemma_filter_elem(s0, p, i);
            let j = choose|j: int| 0 <= j < s0.len() && s0[j] == f0[i];
            assert(s[j] == f0[i]);
        } else {
            assert(s.filter(p)[i] == s.last());
            assert(s[s.len() - 1] == s.last());
        }
    }
}

/// Filtering by an unrelated predicate keeps a worker's event count: if `q`
/// keeps every event of worker `t`, worker `t` occurs as often after the
/// filter as before.
proof fn lemma_occurrences_after_filter(s: Seq<int>, q: spec_fn(int) -> bool, t: int)
    requires
        q(t),
    ensures
        occurrences(s.filter(q), t) == occurrences(s, t),
    decreases s.len(),
{
    reveal(Seq::filter);
    if s.len() > 0 {
        let s0 = s.drop_last();
        let a = s.last();
        lemma_occurrences_after_filter(s0, q, t);
        if q(a) {
            assert(s.filter(q) == s0.filter(q).push(a));
            assert(s.filter(q).drop_last() =~= s0.filter(q));
            assert(s.filter(q).last() == a);
        } else {
            assert(a != t);
        }
    }
}

/// The final counter value does not depend on the interleaving: any schedule
/// in which each of `num_threads` workers performs exactly `iterations`
/// increments, and nobody else runs, drives the counter from zero to exactly
/// `num_threads * iterations`.
pub proof fn lemma_schedule_total(schedule: Seq<int>, num_threads: nat, iterations: nat)
    requires
        forall|i: int| 0 <= i < schedule.len() ==> 0 <= #[trigger] schedule[i] < num_threads,
        forall|t: int| 0 <= t < num_threads ==> occurrences(schedule, t) == iterations,
    ensures
        counter_after(schedule) == num_threads * iterations,
    decreases num_threads,
{
    lemma_counter_after_is_len(schedule);
    if num_threads == 0 {
        if schedule.len() > 0 {
            assert(0 <= schedule[0] && schedule[0] < num_threads);
            assert(false);
        }
    } else {
        let last_t = num_threads - 1;
        let keep = is_not_worker(last_t);
        let drop_p = is_worker(last_t);
        let rest = schedule.filter(keep);
        lemma_filter_split(schedule, keep, drop_p);
        assert(schedule.len() == rest.len() + occurrences(schedule, last_t));
        assert forall|i: int| 0 <= i < rest.len() implies 0 <= #[trigger] rest[i] < num_threads
            - 1 by {
            lemma_filter_elem(schedule, keep, i);
            let j = choose|j: int| 0 <= j < schedule.len() && schedule[j] == rest[i];
            schedule.lemma_filter_pred(keep, i);
        }
        assert forall|t: int| 0 <= t < num_threads - 1 implies occurrences(rest, t)
            == iterations by {
            lemma_occurrences_after_filter(schedule, keep, t);
        }
        lemma_schedule_total(rest, (num_threads - 1) as nat, iterations);
        lemma_counter_after_is_len(rest);
        assert((num_threads - 1) * iterations + iterations == num_threads * iterations)
            by (nonlinear_arith);
    }
}

/// Each scheduled event adds one, so the final value is the schedule's
/// length.
proof fn lemma_counter_after_is_len(schedule: Seq<int>)
    ensures
        counter_after(schedule) == schedule.len(),
    decreases schedule.len(),
{
    if schedule.len() > 0 {
        lemma_counter_after_is_len(schedule.drop_last());
    }
}

/// Performs `num_threads * iterations` increments on a fresh counter, one
/// worker's quota after another, and returns the final value: exactly the
/// product, the same value any interleaving of the same increments reaches.
pub fn run_counter(num_threads: usize, iterations: usize) -> (r: usize)
    requires
        num_threads * iterations <= usize::MAX,
    ensures
        r == num_threads * iterations,
{
    let mut counter = Counter::new();
    let mut t: usize = 0;
    while t < num_threads
        invariant
            num_threads * iterations <= usize::MAX,
            t <= num_threads,
            counter.spec_count() == t * iterations,
        decreases num_threads - t,
    {
        let mut k: usize = 0;
        while k < iterations
            invariant
                num_threads * iterations <= usize::MAX,
                t < num_threads,
                k <= iterations,
                counter.spec_count() == t * iterations + k,
            decreases iterations - k,
        {
            proof {
                assert(t * iterations + k < num_threads * iterations) by (nonlinear_arith)
                    requires
                        t < num_threads,
                        k < iterations,
                ;
            }
            counter.increment();
            k += 1;
        }
        proof {
            assert(t * iterations + iterations == (t + 1) * iterations) by (nonlinear_arith);
        }
        t += 1;
    }
    counter.get()
}

} // verus!
