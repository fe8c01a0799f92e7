//! Reduction of a package's raw download events into per-day totals.
//!
//! The registry reports one event per package version per day, and may report
//! several rows for the same version and day; counts for one day are summed
//! across all of them. A day of the window with no event maps to zero: absence
//! of data and a count of zero collapse to the same value downstream.

use vstd::prelude::*;

verus! {

broadcast use vstd::std_specs::hash::group_hash_axioms;

/// One raw record from the registry: the downloads of one package version on
/// one calendar day. The date is a day number as in [`crate::dates`].
#[derive(Debug, PartialEq, Eq)]
pub struct DownloadEvent {
    /// The package version the registry reported this row for.
    pub version: String,
    /// The day the downloads were counted on.
    pub date: u64,
    /// How many downloads the registry counted.
    pub count: u64,
}

/// `n` clamped to what a `u64` can hold.
pub open spec fn clamp_u64(n: nat) -> u64 {
    if n > u64::MAX as nat {
        u64::MAX
    } else {
        n as u64
    }
}

/// Addition on counters that stops at `u64::MAX` instead of overflowing.
pub fn sat_add(a: u64, b: u64) -> (r: u64)
    ensures
        r == clamp_u64(a as nat + b as nat),
{
    if a > u64::MAX - b {
        u64::MAX
    } else {
        a + b
    }
}

/// The exact (unbounded) sum of the counts of all events dated `d`.
pub open spec fn sum_for_date(events: Seq<DownloadEvent>, d: u64) -> nat
    decreases events.len(),
{
    if events.len() == 0 {
        0
    } else {
        sum_for_date(events.drop_last(), d) + if events.last().date == d {
            events.last().count as nat
        } else {
            0
        }
    }
}

/// Whether any event is dated `d`.
pub open spec fn has_date(events: Seq<DownloadEvent>, d: u64) -> bool {
    exists|j: int| 0 <= j < events.len() && events[j].date == d
}

/// A date nobody reported an event for sums to zero.
pub proof fn lemma_no_date_no_sum(events: Seq<DownloadEvent>, d: u64)
    requires
        !has_date(events, d),
    ensures
        sum_for_date(events, d) == 0,
    decreases events.len(),
{
    if events.len() > 0 {
        assert(forall|j: int|
            0 <= j < events.len() - 1 ==> events.drop_last()[j] == events[j]);
        lemma_no_date_no_sum(events.drop_last(), d);
    }
}

/// What aggregation yields: one `(date, total)` pair per window day, in window
/// order, each total the sum of that day's event counts clamped to `u64`.
pub open spec fn aggregate_spec(events: Seq<DownloadEvent>, window: Seq<u64>) -> Seq<(u64, u64)> {
    Seq::new(window.len(), |i: int| (window[i], clamp_u64(sum_for_date(events, window[i]))))
}

/// A package's downloads per day of the report window, dense over the window:
/// dates carry their day's total, and days the registry reported nothing for
/// carry zero.
#[derive(Debug, PartialEq, Eq)]
pub struct DailyDownloads {
    /// `(date, total)` pairs, one per window day, in window order.
    pub entries: Vec<(u64, u64)>,
}

impl View for DailyDownloads {
    type V = Seq<(u64, u64)>;

    open spec fn view(&self) -> Seq<(u64, u64)> {
        self.entries@
    }
}

/// The total recorded for `d`: the first entry dated `d`, or zero when no
/// entry is — a missing day means "no data", which reads as zero.
pub open spec fn lookup(entries: Seq<(u64, u64)>, d: u64) -> u64
    decreases entries.len(),
{
    if entries.len() == 0 {
        0
    } else if entries[0].0 == d {
        entries[0].1
    } else {
        lookup(entries.skip(1), d)
    }
}

impl DailyDownloads {
    /// The downloads counted for day `date`; zero when the day is absent.
    pub fn get(&self, date: u64) -> (c: u64)
        ensures
            c == lookup(self@, date),
    {
        let mut i: usize = 0;
        assert(self@.skip(0) =~= self@);
        while i < self.entries.len()
            invariant
                i <= self.entries@.len(),
                lookup(self@, date) == lookup(self@.skip(i as int), date),
            decreases self.entries@.len() - i,
        {
            if self.entries[i].0 == date {
                assert(self@.skip(i as int)[0] == self@[i as int]);
                return self.entries[i].1;
            }
            assert(self@.skip(i as int).skip(1) =~= self@.skip(i as int + 1));
            i = i + 1;
        }
        assert(self@.skip(i as int).len() == 0);
        0
    }
}

/// Sums every event's count into its day of `window`, in a single pass over
/// the events. Events dated outside the window are ignored; several events on
/// one day — from one version or many — are summed, never deduplicated; the
/// input may come in any order and is not modified. Every total is
/// non-negative, and no date outside the window appears in the result.
pub fn aggregate(events: &Vec<DownloadEvent>, window: &Vec<u64>) -> (r: DailyDownloads)
    ensures
        r@ == aggregate_spec(events@, window@),
        r@.len() == window@.len(),
        forall|j: int| 0 <= j < window@.len() ==> (#[trigger] r@[j]).0 == window@[j],
{
    let ghost evs = events@;
    let mut totals: std::collections::HashMap<u64, u64> = std::collections::HashMap::new();
    let mut i: usize = 0;
    while i < events.len()
        invariant
            i <= evs.len(),
            events@ == evs,
            forall|d: u64| #[trigger]
                totals@.contains_key(d) <==> has_date(evs.take(i as int), d),
            forall|d: u64| #[trigger]
                totals@.contains_key(d) ==> totals@[d] == clamp_u64(
                    sum_for_date(evs.take(i as int), d),
                ),
        decreases evs.len() - i,
    {
        let d = events[i].date;
        let c = events[i].count;
        let prev = match totals.get(&d) {
            Some(v) => *v,
            None => 0,
        };
        proof {
            assert(evs.take(i as int + 1).drop_last() =~= evs.take(i as int));
            assert(evs.take(i as int + 1).last() == evs[i as int]);
            if !has_date(evs.take(i as int), d) {
                lemma_no_date_no_sum(evs.take(i as int), d);
            }
            assert(forall|e: u64|
                has_date(evs.take(i as int), e) ==> has_date(evs.take(i as int + 1), e)) by {
                assert(forall|k: int|
                    0 <= k < i ==> evs.take(i as int)[k] == evs.take(i as int + 1)[k]);
            }
            assert(forall|e: u64|
                #[trigger] has_date(evs.take(i as int + 1), e) && e != d ==> has_date(
                    evs.take(i as int),
                    e,
                ));
            // prev is the clamped sum so far; adding this event's count keeps it so
            assert(prev == clamp_u64(sum_for_date(evs.take(i as int), d)));
            assert(sum_for_date(evs.take(i as int + 1), d) == sum_for_date(
                evs.take(i as int),
                d,
            ) + c as nat);
        }
        let next = sat_add(prev, c);
        assert(next == clamp_u64(sum_for_date(evs.take(i as int + 1), d)));
        totals.insert(d, next);
        i = i + 1;
    }
    assert(evs.take(evs.len() as int) =~= evs);
    let mut entries: Vec<(u64, u64)> = Vec::new();
    let mut j: usize = 0;
    while j < window.len()
        invariant
            j <= window@.len(),
            events@ == evs,
            entries@.len() == j,
            forall|t: int| 0 <= t < j ==> entries@[t] == (window@[t], clamp_u64(
                sum_for_date(evs, window@[t]),
            )),
            forall|d: u64| #[trigger] totals@.contains_key(d) <==> has_date(evs, d),
            forall|d: u64| #[trigger]
                totals@.contains_key(d) ==> totals@[d] == clamp_u64(sum_for_date(evs, d)),
        decreases window@.len() - j,
    {
        let d = window[j];
        let c = match totals.get(&d) {
            Some(v) => *v,
            None => {
                proof {
                    lemma_no_date_no_sum(evs, d);
                }
                0
            },
        };
        entries.push((d, c));
        j = j + 1;
    }
    let r = DailyDownloads { entries };
    assert(r@ =~= aggregate_spec(events@, window@));
    r
}

/// Aggregation never invents a day: looking up any date outside the requested
/// window in an aggregated result yields zero.
pub proof fn lemma_outside_window_zero(events: Seq<DownloadEvent>, window: Seq<u64>, d: u64)
    requires
        !window.contains(d),
    ensures
        lookup(aggregate_spec(events, window), d) == 0,
    decreases window.len(),
{
    if window.len() > 0 {
        assert(window[0] != d);
        assert(aggregate_spec(events, window).skip(1) =~= aggregate_spec(
            events,
            window.skip(1),
        ));
        assert(!window.skip(1).contains(d)) by {
            assert(forall|k: int|
                0 <= k < window.skip(1).len() ==> window.skip(1)[k] == window[k + 1]);
        }
        lemma_outside_window_zero(events, window.skip(1), d);
    }
}

/// Looking a window day up in an aggregated result yields exactly that day's
/// clamped event sum.
pub proof fn lemma_window_day_lookup(events: Seq<DownloadEvent>, window: Seq<u64>, d: u64)
    requires
        window.contains(d),
    ensures
        lookup(aggregate_spec(events, window), d) == clamp_u64(sum_for_date(events, d)),
    decreases window.len(),
{
    if window.len() > 0 {
        if window[0] == d {
        } else {
            assert(aggregate_spec(events, window).skip(1) =~= aggregate_spec(
                events,
                window.skip(1),
            ));
            assert(window.skip(1).contains(d)) by {
                let k = choose|k: int| 0 <= k < window.len() && window[k] == d;
                assert(window.skip(1)[k - 1] == d);
            }
            lemma_window_day_lookup(events, window.skip(1), d);
        }
    }
}

} // verus!
