use chrono::Datelike;
use crabst::aggregate::{aggregate, DownloadEvent};
use crabst::report::{build, labeled_days, PackageSummary};
use crabst::schedule::{fetch_all, Scheduler};
use crabst::FetchError;

fn day(y: i32, m: u32, d: u32) -> u64 {
    chrono::NaiveDate::from_ymd_opt(y, m, d)
        .unwrap()
        .num_days_from_ce() as u64
}

fn event(version: &str, date: u64, count: u64) -> DownloadEvent {
    DownloadEvent { version: version.to_string(), date, count }
}

fn summary(id: &str, lifetime: u64) -> PackageSummary {
    PackageSummary { id: id.to_string(), lifetime_downloads: lifetime }
}

fn ids(names: &[&str]) -> Vec<String> {
    names.iter().map(|n| n.to_string()).collect()
}

#[test]
fn totals_row_sums_every_numeric_column() {
    // Two packages over a one-day window: lifetimes 100 and 50, day counts 10
    // and 5; the totals row must show 150 and 15.
    let d1 = day(2024, 2, 1);
    let window = vec![d1];
    let summaries = vec![summary("a", 100), summary("b", 50)];
    let per = vec![
        ("a".to_string(), aggregate(&vec![event("v1", d1, 10)], &window)),
        ("b".to_string(), aggregate(&vec![event("v1", d1, 5)], &window)),
    ];
    let grid = build(&summaries, &per, &window);
    assert_eq!(grid.totals.label, "Total");
    assert_eq!(grid.totals.lifetime, 150);
    assert_eq!(grid.totals.daily, vec![15]);
    assert_eq!(grid.rows.len(), 2);
    assert_eq!(grid.rows[0].daily, vec![10]);
    assert_eq!(grid.rows[1].daily, vec![5]);
}

#[test]
fn grid_keeps_summary_order_and_zero_fills_absent_data() {
    let d1 = day(2024, 2, 1);
    let d2 = day(2024, 2, 2);
    let window = vec![d1, d2];
    // "mid" is absent from the fetched table entirely; "late" lacks d1.
    let summaries = vec![summary("late", 9), summary("mid", 4), summary("early", 7)];
    let per = vec![
        ("early".to_string(), aggregate(&vec![event("v1", d1, 3)], &window)),
        ("late".to_string(), aggregate(&vec![event("v2", d2, 6)], &window)),
    ];
    let grid = build(&summaries, &per, &window);
    let labels: Vec<&str> = grid.rows.iter().map(|r| r.label.as_str()).collect();
    assert_eq!(labels, vec!["late", "mid", "early"]);
    assert_eq!(grid.rows[0].daily, vec![0, 6]);
    assert_eq!(grid.rows[1].daily, vec![0, 0]);
    assert_eq!(grid.rows[2].daily, vec![3, 0]);
    assert_eq!(grid.totals.lifetime, 20);
    assert_eq!(grid.totals.daily, vec![3, 6]);
}

#[test]
fn date_labels_follow_the_calendar() {
    let window = vec![day(2024, 1, 1), day(2024, 1, 2), day(2024, 1, 3)];
    let grid = build(&Vec::new(), &Vec::new(), &window);
    assert_eq!(
        grid.date_labels,
        vec!["2024-01-01", "2024-01-02", "2024-01-03"]
    );
}

#[test]
fn labeled_days_pair_each_window_day_with_its_count() {
    let d1 = day(2023, 12, 31);
    let d2 = day(2024, 1, 1);
    let window = vec![d1, d2];
    let daily = aggregate(&vec![event("v1", d2, 11)], &window);
    let rows = labeled_days(&daily);
    assert_eq!(rows, vec![("2023-12-31".to_string(), 0), ("2024-01-01".to_string(), 11)]);
}

#[test]
fn fetch_all_returns_every_package_despite_failures() {
    let d1 = day(2024, 2, 1);
    let window = vec![d1];
    let names = ids(&["a", "b", "c", "d"]);
    let outcomes = vec![
        Ok(vec![event("v1", d1, 2)]),
        Err(FetchError::NotFound),
        Ok(vec![event("v1", d1, 3)]),
        Err(FetchError::Transport),
    ];
    let r = fetch_all(&names, &window, 2, &outcomes);
    assert_eq!(r.len(), 4);
    let keys: Vec<&str> = r.iter().map(|p| p.0.as_str()).collect();
    assert_eq!(keys, vec!["a", "b", "c", "d"]);
    assert_eq!(r[0].1.get(d1), 2);
    assert_eq!(r[1].1.get(d1), 0); // failed: all-zero data, not an error
    assert_eq!(r[2].1.get(d1), 3);
    assert_eq!(r[3].1.get(d1), 0);
}

#[test]
fn one_failure_leaves_every_other_package_untouched() {
    let d1 = day(2024, 2, 1);
    let window = vec![d1];
    let names = ids(&["a", "b", "c"]);
    let all_good = vec![
        Ok(vec![event("v1", d1, 2)]),
        Ok(vec![event("v1", d1, 8)]),
        Ok(vec![event("v1", d1, 3)]),
    ];
    let b_fails = vec![
        Ok(vec![event("v1", d1, 2)]),
        Err(FetchError::RateLimited),
        Ok(vec![event("v1", d1, 3)]),
    ];
    let good = fetch_all(&names, &window, 3, &all_good);
    let partial = fetch_all(&names, &window, 3, &b_fails);
    assert_eq!(partial[0], good[0]);
    assert_eq!(partial[2], good[2]);
    assert_eq!(partial[1].1.get(d1), 0);
}

#[test]
fn sequential_run_matches_concurrent_run() {
    // Five packages, ceiling one versus ceiling five: the returned mapping is
    // identical; only wall-clock behaviour may differ.
    let d1 = day(2024, 2, 1);
    let d2 = day(2024, 2, 2);
    let window = vec![d1, d2];
    let names = ids(&["a", "b", "c", "d", "e"]);
    let outcomes = vec![
        Ok(vec![event("v1", d1, 1)]),
        Err(FetchError::Transport),
        Ok(vec![event("v1", d2, 5), event("v2", d2, 6)]),
        Ok(Vec::new()),
        Ok(vec![event("v1", d1, 7)]),
    ];
    let sequential = fetch_all(&names, &window, 1, &outcomes);
    let concurrent = fetch_all(&names, &window, 5, &outcomes);
    assert_eq!(sequential, concurrent);
}

#[test]
fn scheduler_never_exceeds_its_ceiling() {
    let d1 = day(2024, 2, 1);
    let window = vec![d1];
    let mut sched = Scheduler::new(3, 2);
    let first = sched.start_next();
    let second = sched.start_next();
    assert_eq!(first, Some(0));
    assert_eq!(second, Some(1));
    // The pool is full: nothing more starts until a task completes.
    assert_eq!(sched.start_next(), None);
    sched.complete(0, &Ok(vec![event("v1", d1, 4)]), &window);
    // A place freed up, so the next queued task starts at once.
    assert_eq!(sched.start_next(), Some(2));
    sched.complete(1, &Err(FetchError::NotFound), &window);
    sched.complete(2, &Ok(Vec::new()), &window);
    assert!(sched.is_done());
    let r = sched.into_results(&ids(&["x", "y", "z"]));
    assert_eq!(r.len(), 3);
    assert_eq!(r[0].1.get(d1), 4);
    assert_eq!(r[1].1.get(d1), 0);
    assert_eq!(r[2].1.get(d1), 0);
}
