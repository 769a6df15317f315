use chrono::{DateTime, Datelike, Duration, Months, TimeZone, Timelike, Utc};
use retention::policy::{bucket_of, retain_items};
use retention::{Granularity, RetentionFile, RetentionPolicy, Timestamp};
use std::collections::VecDeque;

fn stamp(d: DateTime<Utc>) -> Timestamp {
    Timestamp::new(d.year(), d.month(), d.day(), d.hour(), d.minute(), d.second()).unwrap()
}

fn day() -> DateTime<Utc> {
    Utc.with_ymd_and_hms(2022, 1, 1, 22, 0, 0).unwrap()
}

type Expected = (DateTime<Utc>, bool);

fn now(keep: bool) -> Expected {
    (day(), keep)
}

fn hours(n: i64, keep: bool) -> Expected {
    (day() - Duration::hours(n), keep)
}

fn days(n: i64, keep: bool) -> Expected {
    (day() - Duration::days(n), keep)
}

fn weeks(n: i64, keep: bool) -> Expected {
    (day() - Duration::weeks(n), keep)
}

fn months(n: u32, keep: bool) -> Expected {
    (day().checked_sub_months(Months::new(n)).unwrap(), keep)
}

fn years(n: i32, keep: bool) -> Expected {
    (day().with_year(2022 - n).unwrap(), keep)
}

fn file(name: String, d: DateTime<Utc>) -> RetentionFile {
    RetentionFile { filename: name, date: stamp(d) }
}

fn names(files: &[RetentionFile]) -> Vec<String> {
    files.iter().map(|f| f.filename.clone()).collect()
}

/// Runs `policy` on the entries, named by position, and checks the split.
fn check(policy: RetentionPolicy, entries: Vec<Expected>) {
    let files: Vec<RetentionFile> = entries.iter().enumerate().map(|(i, (d, _))| file(i.to_string(), *d)).collect();
    let keep_expected: Vec<String> = entries.iter().enumerate().filter(|(_, (_, k))| *k).map(|(i, _)| i.to_string()).collect();
    let drop_expected: Vec<String> = entries.iter().enumerate().filter(|(_, (_, k))| !*k).map(|(i, _)| i.to_string()).collect();
    let (keep, drop) = policy.retain(files);
    assert_eq!(keep_expected, names(&keep));
    assert_eq!(drop_expected, names(&drop));
}

fn only(f: impl FnOnce(&mut RetentionPolicy)) -> RetentionPolicy {
    let mut p = RetentionPolicy::default();
    f(&mut p);
    p
}

fn same_files(count: usize) -> Vec<RetentionFile> {
    (0..count).map(|i| file(format!("f{i}"), day())).collect()
}

#[test]
fn retain_should_drop_no_files_for_empty_policy() {
    for count in [2, 5] {
        let (keep, drop) = RetentionPolicy::default().retain(same_files(count));
        assert_eq!(count, keep.len());
        assert_eq!(0, drop.len());
    }
}

#[test]
fn identity_policy_keeps_order() {
    let files = vec![file("b".to_string(), days(3, true).0), file("a".to_string(), now(true).0), file("c".to_string(), years(1, true).0)];
    let (keep, drop) = RetentionPolicy::default().retain(files);
    assert_eq!(vec!["b", "a", "c"], names(&keep));
    assert!(drop.is_empty());
}

#[test]
fn retain_should_keep_last_files() {
    for (total, last) in [(2, 1), (5, 2)] {
        let policy = only(|p| p.keep_last = Some(last));
        let (keep, drop) = policy.retain(same_files(total));
        assert_eq!(last, keep.len());
        assert_eq!(total - last, drop.len());
        let expected: Vec<String> = (0..last).map(|i| format!("f{i}")).collect();
        assert_eq!(expected, names(&keep));
    }
}

#[test]
fn keep_last_larger_than_input_keeps_everything() {
    let policy = only(|p| p.keep_last = Some(10));
    let (keep, drop) = policy.retain(same_files(3));
    assert_eq!(3, keep.len());
    assert!(drop.is_empty());
}

#[test]
fn retain_should_keep_daily_files() {
    let cases = vec![
        (2, vec![now(true), hours(2, false)]),
        (2, vec![now(true), days(1, true), days(2, false)]),
        (5, vec![now(true), hours(12, false), days(1, true), hours(36, false), days(2, true)]),
    ];
    for (n, entries) in cases {
        check(only(|p| p.keep_daily = Some(n)), entries);
    }
}

#[test]
fn same_calendar_day_keeps_first() {
    let late = Utc.with_ymd_and_hms(2022, 1, 1, 22, 0, 0).unwrap();
    let early = Utc.with_ymd_and_hms(2022, 1, 1, 10, 0, 0).unwrap();
    check(only(|p| p.keep_daily = Some(1)), vec![(late, true), (early, false)]);
}

#[test]
fn retain_should_keep_weekly_files() {
    let cases = vec![
        (2, vec![now(true), days(2, false)]),
        (2, vec![now(true), weeks(1, true), weeks(2, false)]),
        (5, vec![now(true), days(4, false), weeks(1, true), days(10, false), weeks(2, true)]),
        (5, vec![days(-2, true), years(2, true)]),
    ];
    for (n, entries) in cases {
        check(only(|p| p.keep_weekly = Some(n)), entries);
    }
}

#[test]
fn same_week_number_in_different_week_years() {
    let a = Utc.with_ymd_and_hms(2022, 1, 3, 0, 0, 0).unwrap();
    let b = Utc.with_ymd_and_hms(2020, 1, 1, 0, 0, 0).unwrap();
    assert_eq!(a.iso_week().week(), b.iso_week().week());
    check(only(|p| p.keep_weekly = Some(2)), vec![(a, true), (b, true)]);
}

#[test]
fn retain_should_keep_monthly_files() {
    let cases = vec![
        (2, vec![days(1, true), days(2, false)]),
        (2, vec![now(true), days(1, true), months(2, false)]),
        (3, vec![now(true), months(1, true), months(2, true), months(3, false)]),
    ];
    for (n, entries) in cases {
        check(only(|p| p.keep_monthly = Some(n)), entries);
    }
}

#[test]
fn same_month_in_different_years_collides() {
    let a = Utc.with_ymd_and_hms(2022, 1, 15, 0, 0, 0).unwrap();
    let b = Utc.with_ymd_and_hms(2021, 1, 15, 0, 0, 0).unwrap();
    check(only(|p| p.keep_monthly = Some(2)), vec![(a, true), (b, false)]);
}

#[test]
fn retain_should_keep_yearly_files() {
    let cases = vec![
        (2, vec![now(true), years(1, true), years(2, false)]),
        (2, vec![days(1, true), years(1, false), years(2, true)]),
        (1, vec![now(true), years(1, false), years(2, false)]),
    ];
    for (n, entries) in cases {
        check(only(|p| p.keep_yearly = Some(n)), entries);
    }
}

#[test]
fn retain_should_retain_combination() {
    let kept = ["2022-01-01", "2021-12-31", "2021-12-30", "2021-11-30", "2021-10-31", "2021-09-30"];
    let mut entries = Vec::new();
    let mut d = day();
    let last = Utc.with_ymd_and_hms(2021, 9, 30, 22, 0, 0).unwrap();
    loop {
        let label = d.format("%Y-%m-%d").to_string();
        entries.push((d, kept.contains(&label.as_str())));
        if d == last {
            break;
        }
        d = d - Duration::days(1);
    }
    let policy = RetentionPolicy { keep_last: Some(1), keep_daily: Some(2), keep_monthly: Some(3), ..RetentionPolicy::default() };
    check(policy, entries);
}

#[test]
fn keep_and_drop_partition_the_input() {
    let entries = vec![now(true), hours(3, true), days(1, true), days(9, true), months(1, true), months(13, true), years(3, true)];
    let files: Vec<RetentionFile> = entries.iter().enumerate().map(|(i, (d, _))| file(i.to_string(), *d)).collect();
    let policy = RetentionPolicy { keep_last: Some(1), keep_weekly: Some(1), keep_yearly: Some(2), ..RetentionPolicy::default() };
    let (keep, drop) = policy.retain(files);
    assert_eq!(entries.len(), keep.len() + drop.len());
    let mut all = names(&keep);
    all.extend(names(&drop));
    all.sort();
    let mut expected: Vec<String> = (0..entries.len()).map(|i| i.to_string()).collect();
    expected.sort();
    assert_eq!(expected, all);
}

#[test]
fn hourly_quota_alone_drops_everything() {
    let policy = only(|p| p.keep_hourly = Some(3));
    let (keep, drop) = policy.retain(same_files(2));
    assert!(keep.is_empty());
    assert_eq!(2, drop.len());
}

#[test]
fn buckets() {
    let t = Timestamp::new(2022, 1, 1, 22, 0, 0).unwrap();
    assert_eq!(20220101, bucket_of(Granularity::Daily, &t));
    assert_eq!(202152, bucket_of(Granularity::Weekly, &t));
    assert_eq!(1, bucket_of(Granularity::Monthly, &t));
    assert_eq!(2022, bucket_of(Granularity::Yearly, &t));
    let u = Timestamp::new(2020, 12, 31, 0, 0, 0).unwrap();
    assert_eq!(202053, bucket_of(Granularity::Weekly, &u));
}

#[test]
fn timestamps_are_checked() {
    assert!(Timestamp::new(2024, 2, 29, 23, 59, 59).is_some());
    assert!(Timestamp::new(2023, 2, 29, 0, 0, 0).is_none());
    assert!(Timestamp::new(1900, 2, 29, 0, 0, 0).is_none());
    assert!(Timestamp::new(2000, 2, 29, 0, 0, 0).is_some());
    assert!(Timestamp::new(2022, 4, 31, 0, 0, 0).is_none());
    assert!(Timestamp::new(2022, 0, 1, 0, 0, 0).is_none());
    assert!(Timestamp::new(2022, 1, 0, 0, 0, 0).is_none());
    assert!(Timestamp::new(2022, 1, 1, 0, 60, 0).is_none());
    assert!(Timestamp::new(2022, 1, 1, 0, 0, 60).is_none());
    assert!(Timestamp::new(262142, 12, 31, 0, 0, 0).is_some());
    assert!(Timestamp::new(262143, 1, 1, 0, 0, 0).is_none());
    let t = Timestamp::new(2021, 3, 4, 5, 6, 7).unwrap();
    assert_eq!((2021, 9), t.iso_week());
}

#[test]
fn retain_items_stops_at_quota() {
    let mut rest: VecDeque<RetentionFile> = [now(true), hours(1, true), days(1, true), days(2, true)]
        .iter()
        .enumerate()
        .map(|(i, (d, _))| file(i.to_string(), *d))
        .collect();
    let mut keep = Vec::new();
    let mut drop = Vec::new();
    retain_items(&mut rest, &mut keep, &mut drop, 2, Granularity::Daily);
    assert_eq!(vec!["0", "2"], names(&keep));
    assert_eq!(vec!["1"], names(&drop));
    assert_eq!(1, rest.len());
}

#[test]
fn newest_first_orders_and_keeps_ties_reversed() {
    let files = vec![
        file("old".to_string(), days(5, true).0),
        file("tie-a".to_string(), now(true).0),
        file("mid".to_string(), days(1, true).0),
        file("tie-b".to_string(), now(true).0),
    ];
    let sorted = retention::policy::newest_first(files);
    assert_eq!(vec!["tie-b", "tie-a", "mid", "old"], names(&sorted));
}
