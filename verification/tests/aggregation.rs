use chrono::Datelike;
use crabst::aggregate::{aggregate, DownloadEvent};
use crabst::dates::dates_for_window;
use crabst::ArgumentError;

fn day(y: i32, m: u32, d: u32) -> u64 {
    chrono::NaiveDate::from_ymd_opt(y, m, d)
        .unwrap()
        .num_days_from_ce() as u64
}

fn event(version: &str, date: u64, count: u64) -> DownloadEvent {
    DownloadEvent { version: version.to_string(), date, count }
}

#[test]
fn window_has_requested_length_and_order() {
    let today = day(2024, 3, 15);
    for n in 1u32..=7 {
        let v = dates_for_window(n, today).unwrap();
        assert_eq!(v.len(), n as usize);
        for i in 0..v.len() - 1 {
            assert_eq!(v[i] + 1, v[i + 1]);
        }
        assert_eq!(*v.last().unwrap(), today);
    }
}

#[test]
fn window_of_zero_days_is_refused() {
    let today = day(2024, 3, 15);
    let r = dates_for_window(0, today);
    assert_eq!(r, Err(ArgumentError::EmptyWindow));
    assert_eq!(
        r.unwrap_err().message(),
        "window must request at least one day"
    );
}

#[test]
fn window_of_one_day_is_today() {
    let today = day(2020, 1, 1);
    assert_eq!(dates_for_window(1, today).unwrap(), vec![today]);
}

#[test]
fn aggregate_sums_versions_sharing_a_date() {
    // Three window days; two versions share the first day, one event of zero
    // downloads falls on the second, nothing on the third.
    let d1 = day(2024, 1, 1);
    let d2 = day(2024, 1, 2);
    let d3 = day(2024, 1, 3);
    let window = vec![d1, d2, d3];
    let events = vec![event("v1", d1, 5), event("v2", d1, 3), event("v1", d2, 0)];
    let daily = aggregate(&events, &window);
    assert_eq!(daily.get(d1), 8);
    assert_eq!(daily.get(d2), 0);
    assert_eq!(daily.get(d3), 0);
    assert_eq!(daily.entries, vec![(d1, 8), (d2, 0), (d3, 0)]);
}

#[test]
fn aggregate_ignores_dates_outside_window() {
    let d1 = day(2024, 1, 2);
    let before = day(2023, 12, 31);
    let after = day(2024, 1, 9);
    let window = vec![d1];
    let events = vec![event("v1", before, 100), event("v1", d1, 7), event("v2", after, 50)];
    let daily = aggregate(&events, &window);
    assert_eq!(daily.entries, vec![(d1, 7)]);
    assert_eq!(daily.get(before), 0);
    assert_eq!(daily.get(after), 0);
}

#[test]
fn aggregate_does_not_assume_sorted_events() {
    let d1 = day(2024, 5, 1);
    let d2 = day(2024, 5, 2);
    let window = vec![d1, d2];
    let events = vec![event("v3", d2, 4), event("v1", d1, 1), event("v2", d2, 6)];
    let daily = aggregate(&events, &window);
    assert_eq!(daily.entries, vec![(d1, 1), (d2, 10)]);
}

#[test]
fn aggregate_is_idempotent_on_the_same_input() {
    let d1 = day(2024, 1, 1);
    let d2 = day(2024, 1, 2);
    let window = vec![d1, d2];
    let events = vec![event("v1", d1, 5), event("v2", d2, 3), event("v2", d1, 9)];
    let first = aggregate(&events, &window);
    let second = aggregate(&events, &window);
    assert_eq!(first, second);
    // And the inputs are untouched: a third call still sees the same data.
    assert_eq!(aggregate(&events, &window), first);
}

#[test]
fn aggregate_saturates_instead_of_overflowing() {
    let d1 = day(2024, 1, 1);
    let window = vec![d1];
    let events = vec![event("v1", d1, u64::MAX), event("v2", d1, 1)];
    let daily = aggregate(&events, &window);
    assert_eq!(daily.get(d1), u64::MAX);
}

#[test]
fn aggregate_over_empty_window_is_empty() {
    let events = vec![event("v1", day(2024, 1, 1), 5)];
    let daily = aggregate(&events, &Vec::new());
    assert!(daily.entries.is_empty());
}
