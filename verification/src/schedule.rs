//! The bounded fetch schedule.
//!
//! Retrieval of many packages' histories runs with a fixed concurrency
//! ceiling: never more than that many fetches are in flight, and as soon as
//! one completes the next queued package starts — the pool is kept full, work
//! is not chunked into batches. The caller performs the actual fetches; the
//! [`Scheduler`] here is the state machine that decides which task starts
//! next, absorbs each task's outcome, and hands the collected table out once
//! everything has drained. A failed fetch is absorbed, never fatal: that
//! package contributes all-zero data and every other package is untouched.
//!
//! Completion order never shows in the result: each slot is a pure function
//! of its own package's outcome and the window, so the final table is the
//! same for every concurrency ceiling and every interleaving.

use vstd::prelude::*;

use crate::FetchError;
use crate::aggregate::{aggregate, aggregate_spec, DailyDownloads, DownloadEvent};

verus! {

/// The per-day table one package contributes, given its fetch outcome: its
/// aggregated events on success, all zeroes on failure.
pub open spec fn outcome_entries(
    o: Result<Vec<DownloadEvent>, FetchError>,
    window: Seq<u64>,
) -> Seq<(u64, u64)> {
    match o {
        Ok(events) => aggregate_spec(events@, window),
        Err(_) => aggregate_spec(Seq::<DownloadEvent>::empty(), window),
    }
}

/// The whole fetched table as a function of every package's outcome alone:
/// what any run of the schedule returns, whatever the interleaving.
pub open spec fn fetch_all_spec(
    outcomes: Seq<Result<Vec<DownloadEvent>, FetchError>>,
    window: Seq<u64>,
) -> Seq<Seq<(u64, u64)>> {
    Seq::new(outcomes.len(), |i: int| outcome_entries(outcomes[i], window))
}

/// How many slots are already filled.
pub open spec fn num_some<T>(s: Seq<Option<T>>) -> nat
    decreases s.len(),
{
    if s.len() == 0 {
        0
    } else {
        num_some(s.drop_last()) + if s.last() is Some {
            1nat
        } else {
            0
        }
    }
}

/// Slots that are `None` from `k` on contribute nothing to the count.
proof fn lemma_num_some_none_tail<T>(s: Seq<Option<T>>, k: int)
    requires
        0 <= k <= s.len(),
        forall|i: int| k <= i < s.len() ==> s[i] is None,
    ensures
        num_some(s) == num_some(s.take(k)),
    decreases s.len() - k,
{
    if k == s.len() {
        assert(s.take(k) =~= s);
    } else {
        assert(s.drop_last() =~= s.take(s.len() - 1));
        lemma_num_some_none_tail(s.take(s.len() - 1), k);
        assert(s.take(s.len() - 1).take(k) =~= s.take(k));
    }
}

/// The count never exceeds the number of slots, and a `None` slot keeps it
/// strictly below.
proof fn lemma_num_some_below<T>(s: Seq<Option<T>>, idx: int)
    requires
        0 <= idx < s.len(),
        s[idx] is None,
    ensures
        num_some(s) < s.len(),
    decreases s.len(),
{
    lemma_num_some_bound(s.drop_last());
    if idx < s.len() - 1 {
        lemma_num_some_below(s.drop_last(), idx);
    }
}

/// The count never exceeds the number of slots.
proof fn lemma_num_some_bound<T>(s: Seq<Option<T>>)
    ensures
        num_some(s) <= s.len(),
    decreases s.len(),
{
    if s.len() > 0 {
        lemma_num_some_bound(s.drop_last());
    }
}

/// Filling an empty slot raises the count by exactly one.
proof fn lemma_num_some_fill<T>(s: Seq<Option<T>>, idx: int, v: T)
    requires
        0 <= idx < s.len(),
        s[idx] is None,
    ensures
        num_some(s.update(idx, Some(v))) == num_some(s) + 1,
    decreases s.len(),
{
    let t = s.update(idx, Some(v));
    if idx == s.len() - 1 {
        assert(t.drop_last() =~= s.drop_last());
    } else {
        assert(t.drop_last() =~= s.drop_last().update(idx, Some(v)));
        lemma_num_some_fill(s.drop_last(), idx, v);
    }
}

/// When every slot counts, every slot is filled.
proof fn lemma_num_some_full<T>(s: Seq<Option<T>>)
    requires
        num_some(s) == s.len(),
    ensures
        forall|i: int| 0 <= i < s.len() ==> s[i] is Some,
    decreases s.len(),
{
    if s.len() > 0 {
        lemma_num_some_bound(s.drop_last());
        lemma_num_some_full(s.drop_last());
        assert(forall|i: int| 0 <= i < s.len() - 1 ==> s[i] == s.drop_last()[i]);
    }
}

/// The state of one bounded fetch run over tasks numbered `0..results.len()`,
/// one per package, in the caller's package order. The caller asks
/// [`Scheduler::start_next`] which task to launch, performs the fetch itself,
/// and reports what came of it through [`Scheduler::complete`]; the ceiling on
/// simultaneous fetches is never exceeded.
pub struct Scheduler {
    /// How many fetches may be in flight at once; at least one.
    pub concurrency: usize,
    /// Tasks `0..next` have been started; the rest still wait in the queue.
    pub next: usize,
    /// How many started tasks have not completed yet.
    pub in_flight: usize,
    /// One slot per package, filled as its task completes.
    pub results: Vec<Option<DailyDownloads>>,
}

impl Scheduler {
    /// The state is consistent: the in-flight count is what was started and
    /// not yet finished, it never exceeds the ceiling, and no task past the
    /// queue head has a result yet.
    pub open spec fn wf(self) -> bool {
        &&& 1 <= self.concurrency
        &&& self.next <= self.results@.len()
        &&& self.in_flight <= self.concurrency
        &&& self.in_flight + num_some(self.results@) == self.next
        &&& forall|i: int| self.next <= i < self.results@.len() ==> self.results@[i] is None
    }

    /// A fresh schedule over `task_count` packages with the given ceiling.
    pub fn new(task_count: usize, concurrency: usize) -> (s: Scheduler)
        requires
            1 <= concurrency,
        ensures
            s.wf(),
            s.concurrency == concurrency,
            s.next == 0,
            s.in_flight == 0,
            s.results@.len() == task_count,
    {
        let mut results: Vec<Option<DailyDownloads>> = Vec::new();
        let mut i: usize = 0;
        while i < task_count
            invariant
                i <= task_count,
                results@.len() == i,
                num_some(results@) == 0,
                forall|k: int| 0 <= k < i ==> results@[k] is None,
            decreases task_count - i,
        {
            let ghost pre = results@;
            results.push(None);
            assert(results@.drop_last() =~= pre);
            i = i + 1;
        }
        Scheduler { concurrency, next: 0, in_flight: 0, results }
    }

    /// Which task to launch now: the head of the queue, provided the pool has
    /// a free place — strict pool-filling, a task starts the moment room
    /// exists. `None` while the pool is full, and once the queue is drained.
    pub fn start_next(&mut self) -> (r: Option<usize>)
        requires
            old(self).wf(),
        ensures
            final(self).wf(),
            final(self).concurrency == old(self).concurrency,
            final(self).results == old(self).results,
            (r is Some) <==> (old(self).in_flight < old(self).concurrency && old(self).next
                < old(self).results@.len()),
            r matches Some(idx) ==> idx == old(self).next && final(self).next == old(self).next
                + 1 && final(self).in_flight == old(self).in_flight + 1,
            r is None ==> *final(self) == *old(self),
    {
        if self.in_flight < self.concurrency && self.next < self.results.len() {
            let idx = self.next;
            self.next = self.next + 1;
            self.in_flight = self.in_flight + 1;
            Some(idx)
        } else {
            None
        }
    }

    /// Absorbs what task `idx`'s fetch produced: on success its events are
    /// aggregated over `window`, on failure the package contributes a row of
    /// zeroes and the run goes on. Only slot `idx` changes, so one package's
    /// failure leaves every other package's result exactly as it was.
    pub fn complete(
        &mut self,
        idx: usize,
        outcome: &Result<Vec<DownloadEvent>, FetchError>,
        window: &Vec<u64>,
    )
        requires
            old(self).wf(),
            idx < old(self).next,
            old(self).results@[idx as int] is None,
        ensures
            final(self).wf(),
            final(self).concurrency == old(self).concurrency,
            final(self).next == old(self).next,
            final(self).results@.len() == old(self).results@.len(),
            final(self).in_flight == old(self).in_flight - 1,
            final(self).results@[idx as int] matches Some(d) && d@ == outcome_entries(
                *outcome,
                window@,
            ),
            forall|i: int|
                0 <= i < final(self).results@.len() && i != idx ==> final(self).results@[i]
                    == old(self).results@[i],
    {
        let daily = match outcome {
            Ok(events) => aggregate(events, window),
            Err(_) => {
                let no_events: Vec<DownloadEvent> = Vec::new();
                aggregate(&no_events, window)
            },
        };
        proof {
            lemma_num_some_none_tail(self.results@, self.next as int);
            lemma_num_some_below(self.results@.take(self.next as int), idx as int);
        }
        self.results.set(idx, Some(daily));
        self.in_flight = self.in_flight - 1;
        proof {
            lemma_num_some_fill(old(self).results@, idx as int, daily);
        }
    }

    /// Whether the queue is drained and every started task has completed.
    pub fn is_done(&self) -> (b: bool)
        ensures
            b == (self.next == self.results@.len() && self.in_flight == 0),
    {
        self.next == self.results.len() && self.in_flight == 0
    }

    /// A drained schedule has filled every slot.
    pub proof fn lemma_done_all_filled(self)
        requires
            self.wf(),
            self.next == self.results@.len(),
            self.in_flight == 0,
        ensures
            forall|i: int| 0 <= i < self.results@.len() ==> self.results@[i] is Some,
    {
        lemma_num_some_full(self.results@);
    }

    /// Hands the collected table out, keyed by package: the result pairs each
    /// identifier of `ids` — in the caller's original order, not completion
    /// order — with the slot its task filled.
    pub fn into_results(self, ids: &Vec<String>) -> (r: Vec<(String, DailyDownloads)>)
        requires
            self.wf(),
            self.next == self.results@.len(),
            self.in_flight == 0,
            ids@.len() == self.results@.len(),
        ensures
            r@.len() == ids@.len(),
            forall|i: int|
                0 <= i < r@.len() ==> ((#[trigger] r@[i]).0@ == ids@[i]@
                    && (self.results@[i] matches Some(d) && r@[i].1 == d)),
    {
        proof {
            self.lemma_done_all_filled();
        }
        let ghost slots = self.results@;
        let mut rest = self.results;
        let mut rev: Vec<(String, DailyDownloads)> = Vec::new();
        while rest.len() > 0
            invariant
                rest@ =~= slots.take(rest@.len() as int),
                rev@.len() + rest@.len() == slots.len(),
                ids@.len() == slots.len(),
                forall|i: int| 0 <= i < slots.len() ==> slots[i] is Some,
                forall|t: int|
                    0 <= t < rev@.len() ==> ((#[trigger] rev@[t]).0@ == ids@[slots.len() - 1 - t]@
                        && (slots[slots.len() - 1 - t] matches Some(d) && rev@[t].1 == d)),
            decreases rest@.len(),
        {
            let pos = rest.len() - 1;
            let slot = rest.pop();
            assert(rest@ =~= slots.take(pos as int));
            match slot {
                Some(Some(d)) => {
                    let id = ids[pos].clone();
                    rev.push((id, d));
                },
                _ => {
                    proof {
                        assert(slots[pos as int] is Some);
                    }
                    vstd::pervasive::unreached::<()>();
                },
            }
        }
        let mut out: Vec<(String, DailyDownloads)> = Vec::new();
        while rev.len() > 0
            invariant
                out@.len() + rev@.len() == slots.len(),
                ids@.len() == slots.len(),
                forall|t: int|
                    0 <= t < rev@.len() ==> ((#[trigger] rev@[t]).0@ == ids@[slots.len() - 1 - t]@
                        && (slots[slots.len() - 1 - t] matches Some(d) && rev@[t].1 == d)),
                forall|i: int|
                    0 <= i < out@.len() ==> ((#[trigger] out@[i]).0@ == ids@[i]@ && (slots[i] matches
                        Some(d) && out@[i].1 == d)),
            decreases rev@.len(),
        {
            let ghost rlen = rev@.len();
            match rev.pop() {
                Some(pair) => {
                    proof {
                        assert(pair.0@ == ids@[slots.len() - rlen]@);
                        assert(slots[slots.len() - rlen] matches Some(d) && pair.1 == d);
                        assert(slots.len() - rlen == out@.len());
                    }
                    out.push(pair);
                },
                None => {
                    vstd::pervasive::unreached::<()>();
                },
            }
        }
        out
    }
}

/// Retrieves every package's per-day table under the given concurrency
/// ceiling. The caller has already performed one fetch attempt per package
/// (`outcomes[i]` belongs to `ids[i]`); this run drives the schedule over
/// them exactly as the live pool does. The result maps each of the `k`
/// identifiers — all of them, however many fetches failed — to its per-day
/// table, in the order of `ids`, and is the same for every `concurrency`: a
/// run with a ceiling of one behaves like the strictly sequential fetch.
pub fn fetch_all(
    ids: &Vec<String>,
    window: &Vec<u64>,
    concurrency: usize,
    outcomes: &Vec<Result<Vec<DownloadEvent>, FetchError>>,
) -> (r: Vec<(String, DailyDownloads)>)
    requires
        1 <= concurrency,
        outcomes@.len() == ids@.len(),
    ensures
        r@.len() == ids@.len(),
        forall|i: int|
            0 <= i < r@.len() ==> (#[trigger] r@[i]).0@ == ids@[i]@ && r@[i].1@ == fetch_all_spec(
                outcomes@,
                window@,
            )[i],
{
    let k = ids.len();
    let mut sched = Scheduler::new(k, concurrency);
    let mut pending: Vec<usize> = Vec::new();
    loop
        invariant
            sched.wf(),
            sched.concurrency == concurrency,
            sched.results@.len() == k,
            ids@.len() == k,
            outcomes@.len() == k,
            pending@.len() == sched.in_flight,
            forall|t: int|
                0 <= t < pending@.len() ==> #[trigger] pending@[t] < sched.next
                    && sched.results@[pending@[t] as int] is None,
            forall|t1: int, t2: int|
                0 <= t1 < t2 < pending@.len() ==> pending@[t1] != pending@[t2],
            forall|i: int|
                0 <= i < k ==> ((#[trigger] sched.results@[i]) matches Some(d) ==> d@
                    == outcome_entries(outcomes@[i], window@)),
        ensures
            sched.wf(),
            sched.concurrency == concurrency,
            sched.results@.len() == k,
            sched.next == k,
            sched.in_flight == 0,
            forall|i: int|
                0 <= i < k ==> ((#[trigger] sched.results@[i]) matches Some(d) ==> d@
                    == outcome_entries(outcomes@[i], window@)),
        decreases 2 * (k - sched.next) + sched.in_flight,
    {
        let launched = sched.start_next();
        match launched {
            Some(idx) => {
                pending.push(idx);
            },
            None => {
                if pending.len() > 0 {
                    let idx = pending.remove(0);
                    sched.complete(idx, &outcomes[idx], window);
                } else {
                    break ;
                }
            },
        }
    }
    proof {
        sched.lemma_done_all_filled();
    }
    let r = sched.into_results(ids);
    assert(forall|i: int|
        0 <= i < r@.len() ==> (#[trigger] r@[i]).1@ == fetch_all_spec(outcomes@, window@)[i]);
    r
}

/// Failure isolation: change one package's outcome — say its fetch failed
/// where it once succeeded — and every other package's entry in the fetched
/// table is exactly what it was.
pub proof fn lemma_failure_isolation(
    outcomes1: Seq<Result<Vec<DownloadEvent>, FetchError>>,
    outcomes2: Seq<Result<Vec<DownloadEvent>, FetchError>>,
    window: Seq<u64>,
    x: int,
)
    requires
        outcomes1.len() == outcomes2.len(),
        forall|i: int| 0 <= i < outcomes1.len() && i != x ==> outcomes1[i] == outcomes2[i],
    ensures
        forall|i: int|
            0 <= i < outcomes1.len() && i != x ==> fetch_all_spec(outcomes1, window)[i]
                == fetch_all_spec(outcomes2, window)[i],
{
}

} // verus!
