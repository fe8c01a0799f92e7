//! Assembly of the final report grid.
//!
//! The grid is presentation-neutral: labeled rows of plain numbers, in the
//! caller's package order — never fetch-completion order — closed by one
//! totals row that sums every numeric column. A package absent from the
//! fetched table, or a day absent from a package's table, counts as zero:
//! absence means "no data", not "unknown".

use vstd::prelude::*;

use crate::aggregate::{clamp_u64, lookup, sat_add, DailyDownloads};

verus! {

/// A package's static metadata, independent of the date window.
#[derive(Debug, PartialEq, Eq)]
pub struct PackageSummary {
    /// The package's unique name in the registry.
    pub id: String,
    /// Downloads over the package's whole lifetime.
    pub lifetime_downloads: u64,
}

/// The label of day number `day` in calendar notation, year first.
pub uninterp spec fn date_label_of(day: int) -> Seq<char>;

/// Relies on `chrono::NaiveDate::from_num_days_from_ce_opt` and
/// `NaiveDate::format` with `"%Y-%m-%d"`: the label is computed from the day
/// number alone, locale-independent; a day number outside chrono's calendar
/// range yields the empty label.
#[verifier::external_body]
fn date_label(day: u64) -> (s: String)
    ensures
        s@ == date_label_of(day as int),
{
    let date = i32::try_from(day).ok().and_then(chrono::NaiveDate::from_num_days_from_ce_opt);
    match date {
        Some(d) => d.format("%Y-%m-%d").to_string(),
        None => String::new(),
    }
}

/// The first table entry keyed by `id`, if any.
pub open spec fn find_package(
    per: Seq<(String, DailyDownloads)>,
    id: Seq<char>,
) -> Option<DailyDownloads>
    decreases per.len(),
{
    if per.len() == 0 {
        None
    } else if per[0].0@ == id {
        Some(per[0].1)
    } else {
        find_package(per.skip(1), id)
    }
}

/// The count the report shows for package `id` on day `d`: its table's entry
/// for that day, and zero when the package or the day is absent.
pub open spec fn package_daily(per: Seq<(String, DailyDownloads)>, id: Seq<char>, d: u64) -> u64 {
    match find_package(per, id) {
        Some(t) => lookup(t@, d),
        None => 0,
    }
}

/// The exact (unbounded) sum of every listed package's lifetime downloads.
pub open spec fn sum_lifetimes(summaries: Seq<PackageSummary>) -> nat
    decreases summaries.len(),
{
    if summaries.len() == 0 {
        0
    } else {
        sum_lifetimes(summaries.drop_last()) + summaries.last().lifetime_downloads as nat
    }
}

/// The exact (unbounded) sum over every listed package of the count shown for
/// day `d`.
pub open spec fn sum_column(
    summaries: Seq<PackageSummary>,
    per: Seq<(String, DailyDownloads)>,
    d: u64,
) -> nat
    decreases summaries.len(),
{
    if summaries.len() == 0 {
        0
    } else {
        sum_column(summaries.drop_last(), per, d) + package_daily(
            per,
            summaries.last().id@,
            d,
        ) as nat
    }
}

/// One data row of the grid: a label, the lifetime count, and one count per
/// window day in window order.
#[derive(Debug, PartialEq, Eq)]
pub struct GridRow {
    /// The package's name — or the word closing the grid on the totals row.
    pub label: String,
    /// The package's lifetime downloads, or their sum on the totals row.
    pub lifetime: u64,
    /// One count per window day, chronological.
    pub daily: Vec<u64>,
}

/// The assembled report: date labels for the day columns, one row per
/// requested package in the caller's order, and the closing totals row.
#[derive(Debug, PartialEq, Eq)]
pub struct ReportGrid {
    /// The window's day labels, chronological; one per day column.
    pub date_labels: Vec<String>,
    /// One row per requested package, in the order the packages were given.
    pub rows: Vec<GridRow>,
    /// The synthetic closing row: every numeric column summed.
    pub totals: GridRow,
}

impl ReportGrid {
    /// Every row spans the same columns: two fixed cells plus one per window
    /// day, the totals row included.
    pub open spec fn wf(self) -> bool {
        &&& forall|i: int|
            0 <= i < self.rows@.len() ==> (#[trigger] self.rows@[i]).daily@.len()
                == self.date_labels@.len()
        &&& self.totals.daily@.len() == self.date_labels@.len()
    }
}

/// The exact (unbounded) sum of the data rows' lifetime cells.
pub open spec fn sum_row_lifetimes(rows: Seq<GridRow>) -> nat
    decreases rows.len(),
{
    if rows.len() == 0 {
        0
    } else {
        sum_row_lifetimes(rows.drop_last()) + rows.last().lifetime as nat
    }
}

/// The exact (unbounded) sum of the data rows' cells in day column `j`.
pub open spec fn sum_rows_at(rows: Seq<GridRow>, j: int) -> nat
    decreases rows.len(),
{
    if rows.len() == 0 {
        0
    } else {
        sum_rows_at(rows.drop_last(), j) + rows.last().daily@[j] as nat
    }
}

/// Summation law, lifetime column: rows that carry the summaries' lifetime
/// counts sum to exactly the summaries' lifetime total.
pub proof fn lemma_lifetime_column_sums_rows(rows: Seq<GridRow>, summaries: Seq<PackageSummary>)
    requires
        rows.len() == summaries.len(),
        forall|i: int|
            0 <= i < rows.len() ==> (#[trigger] rows[i]).lifetime == summaries[i].lifetime_downloads,
    ensures
        sum_row_lifetimes(rows) == sum_lifetimes(summaries),
    decreases rows.len(),
{
    if rows.len() > 0 {
        assert(forall|i: int| 0 <= i < rows.len() - 1 ==> rows.drop_last()[i] == rows[i]);
        assert(forall|i: int|
            0 <= i < summaries.len() - 1 ==> summaries.drop_last()[i] == summaries[i]);
        lemma_lifetime_column_sums_rows(rows.drop_last(), summaries.drop_last());
    }
}

/// Summation law, day columns: rows that show each package's count for a day
/// sum to exactly that day's column total over all packages.
pub proof fn lemma_day_column_sums_rows(
    rows: Seq<GridRow>,
    summaries: Seq<PackageSummary>,
    per: Seq<(String, DailyDownloads)>,
    d: u64,
    j: int,
)
    requires
        rows.len() == summaries.len(),
        forall|i: int|
            0 <= i < rows.len() ==> (#[trigger] rows[i]).daily@[j] == package_daily(
                per,
                summaries[i].id@,
                d,
            ),
    ensures
        sum_rows_at(rows, j) == sum_column(summaries, per, d),
    decreases rows.len(),
{
    if rows.len() > 0 {
        assert(forall|i: int| 0 <= i < rows.len() - 1 ==> rows.drop_last()[i] == rows[i]);
        assert(forall|i: int|
            0 <= i < summaries.len() - 1 ==> summaries.drop_last()[i] == summaries[i]);
        lemma_day_column_sums_rows(rows.drop_last(), summaries.drop_last(), per, d, j);
    }
}

/// The count shown for package `id` on day `d`, taken from the fetched table;
/// zero when the package or the day is absent from it.
fn package_count(per: &Vec<(String, DailyDownloads)>, id: &String, d: u64) -> (c: u64)
    ensures
        c == package_daily(per@, id@, d),
{
    let mut i: usize = 0;
    assert(per@.skip(0) =~= per@);
    while i < per.len()
        invariant
            i <= per@.len(),
            find_package(per@, id@) == find_package(per@.skip(i as int), id@),
        decreases per@.len() - i,
    {
        if per[i].0 == *id {
            assert(per@.skip(i as int)[0] == per@[i as int]);
            return per[i].1.get(d);
        }
        assert(per@.skip(i as int)[0] == per@[i as int]);
        assert(per@.skip(i as int).skip(1) =~= per@.skip(i as int + 1));
        i = i + 1;
    }
    assert(per@.skip(i as int).len() == 0);
    0
}

/// Composes the report grid: one row per entry of `summaries`, in that order,
/// projected onto `window` with absent data as zero, plus the closing totals
/// row, whose lifetime column sums every row's lifetime count and whose day
/// columns each sum that day across all packages (clamped to `u64`).
pub fn build(
    summaries: &Vec<PackageSummary>,
    per_package: &Vec<(String, DailyDownloads)>,
    window: &Vec<u64>,
) -> (g: ReportGrid)
    ensures
        g.wf(),
        g.date_labels@.len() == window@.len(),
        forall|j: int|
            0 <= j < window@.len() ==> (#[trigger] g.date_labels@[j])@ == date_label_of(
                window@[j] as int,
            ),
        g.rows@.len() == summaries@.len(),
        forall|i: int|
            0 <= i < summaries@.len() ==> {
                let row = #[trigger] g.rows@[i];
                &&& row.label@ == summaries@[i].id@
                &&& row.lifetime == summaries@[i].lifetime_downloads
                &&& row.daily@.len() == window@.len()
                &&& forall|j: int|
                    0 <= j < window@.len() ==> row.daily@[j] == package_daily(
                        per_package@,
                        summaries@[i].id@,
                        #[trigger] window@[j],
                    )
            },
        g.totals.label@ == "Total"@,
        g.totals.lifetime == clamp_u64(sum_lifetimes(summaries@)),
        g.totals.daily@.len() == window@.len(),
        forall|j: int|
            0 <= j < window@.len() ==> (#[trigger] g.totals.daily@[j]) == clamp_u64(
                sum_column(summaries@, per_package@, window@[j]),
            ),
        g.totals.lifetime == clamp_u64(sum_row_lifetimes(g.rows@)),
        forall|j: int|
            0 <= j < window@.len() ==> (#[trigger] g.totals.daily@[j]) == clamp_u64(
                sum_rows_at(g.rows@, j),
            ),
{
    let mut date_labels: Vec<String> = Vec::new();
    let mut j: usize = 0;
    while j < window.len()
        invariant
            j <= window@.len(),
            date_labels@.len() == j,
            forall|t: int|
                0 <= t < j ==> (#[trigger] date_labels@[t])@ == date_label_of(window@[t] as int),
        decreases window@.len() - j,
    {
        date_labels.push(date_label(window[j]));
        j = j + 1;
    }

    let mut rows: Vec<GridRow> = Vec::new();
    let mut lifetime_total: u64 = 0;
    let mut i: usize = 0;
    while i < summaries.len()
        invariant
            i <= summaries@.len(),
            rows@.len() == i,
            forall|t: int|
                0 <= t < i ==> {
                    let row = #[trigger] rows@[t];
                    &&& row.label@ == summaries@[t].id@
                    &&& row.lifetime == summaries@[t].lifetime_downloads
                    &&& row.daily@.len() == window@.len()
                    &&& forall|u: int|
                        0 <= u < window@.len() ==> row.daily@[u] == package_daily(
                            per_package@,
                            summaries@[t].id@,
                            #[trigger] window@[u],
                        )
                },
            lifetime_total == clamp_u64(sum_lifetimes(summaries@.take(i as int))),
        decreases summaries@.len() - i,
    {
        let mut daily: Vec<u64> = Vec::new();
        let mut u: usize = 0;
        while u < window.len()
            invariant
                u <= window@.len(),
                daily@.len() == u,
                i < summaries@.len(),
                forall|t: int|
                    0 <= t < u ==> daily@[t] == package_daily(
                        per_package@,
                        summaries@[i as int].id@,
                        #[trigger] window@[t],
                    ),
            decreases window@.len() - u,
        {
            daily.push(package_count(per_package, &summaries[i].id, window[u]));
            u = u + 1;
        }
        proof {
            assert(summaries@.take(i as int + 1).drop_last() =~= summaries@.take(i as int));
            assert(summaries@.take(i as int + 1).last() == summaries@[i as int]);
        }
        lifetime_total = sat_add(lifetime_total, summaries[i].lifetime_downloads);
        rows.push(
            GridRow { label: summaries[i].id.clone(), lifetime: summaries[i].lifetime_downloads, daily },
        );
        i = i + 1;
    }
    assert(summaries@.take(summaries@.len() as int) =~= summaries@);

    let mut totals_daily: Vec<u64> = Vec::new();
    let mut j2: usize = 0;
    while j2 < window.len()
        invariant
            j2 <= window@.len(),
            totals_daily@.len() == j2,
            forall|t: int|
                0 <= t < j2 ==> (#[trigger] totals_daily@[t]) == clamp_u64(
                    sum_column(summaries@, per_package@, window@[t]),
                ),
        decreases window@.len() - j2,
    {
        let d = window[j2];
        let mut col: u64 = 0;
        let mut t: usize = 0;
        while t < summaries.len()
            invariant
                t <= summaries@.len(),
                col == clamp_u64(sum_column(summaries@.take(t as int), per_package@, d)),
            decreases summaries@.len() - t,
        {
            proof {
                assert(summaries@.take(t as int + 1).drop_last() =~= summaries@.take(t as int));
                assert(summaries@.take(t as int + 1).last() == summaries@[t as int]);
            }
            col = sat_add(col, package_count(per_package, &summaries[t].id, d));
            t = t + 1;
        }
        assert(summaries@.take(summaries@.len() as int) =~= summaries@);
        totals_daily.push(col);
        j2 = j2 + 1;
    }

    proof {
        lemma_lifetime_column_sums_rows(rows@, summaries@);
        assert forall|j: int| 0 <= j < window@.len() implies (#[trigger] totals_daily@[j])
            == clamp_u64(sum_rows_at(rows@, j)) by {
            lemma_day_column_sums_rows(rows@, summaries@, per_package@, window@[j], j);
        }
    }
    ReportGrid {
        date_labels,
        rows,
        totals: GridRow {
            label: String::from_str("Total"),
            lifetime: lifetime_total,
            daily: totals_daily,
        },
    }
}

/// The single-package report's rows: each window day of `daily`, labeled in
/// calendar notation, with its count — the same day-labeling the grid uses.
pub fn labeled_days(daily: &DailyDownloads) -> (rows: Vec<(String, u64)>)
    ensures
        rows@.len() == daily@.len(),
        forall|i: int|
            0 <= i < daily@.len() ==> (#[trigger] rows@[i]).0@ == date_label_of(
                daily@[i].0 as int,
            ) && rows@[i].1 == daily@[i].1,
{
    let mut rows: Vec<(String, u64)> = Vec::new();
    let mut i: usize = 0;
    while i < daily.entries.len()
        invariant
            i <= daily@.len(),
            rows@.len() == i,
            forall|t: int|
                0 <= t < i ==> (#[trigger] rows@[t]).0@ == date_label_of(daily@[t].0 as int)
                    && rows@[t].1 == daily@[t].1,
        decreases daily@.len() - i,
    {
        let (d, c) = daily.entries[i];
        rows.push((date_label(d), c));
        i = i + 1;
    }
    rows
}

} // verus!
