use std::collections::HashMap;

use papertrail_archives::fetch::{plan_fetch, respond, Action};
use papertrail_archives::hour::Hour;
use papertrail_archives::schedule::{plan_run, Scheduler, UnitState, PAPERTRAIL_PARALLEL_REQUESTS};

const JAN_1_2023: i64 = 1672531200;

fn hour(secs: i64) -> Hour {
    Hour::from_timestamp(secs).unwrap()
}

fn hours(n: i64) -> Vec<Hour> {
    (0..n).map(|i| Hour { index: 464592 + i }).collect()
}

/// Drives a run to its end, completing in-flight units in a scrambled order;
/// `fails` decides the outcome of each unit. Returns the largest number of
/// units seen in flight and the order in which units completed.
fn drive(s: &mut Scheduler, fails: &dyn Fn(usize) -> bool) -> (usize, Vec<usize>) {
    let mut in_flight: Vec<usize> = Vec::new();
    let mut most = 0;
    let mut order = Vec::new();
    let mut step = 0usize;
    while !s.is_done() {
        while let Some(i) = s.dispatch() {
            in_flight.push(i);
            assert!(s.in_flight() <= s.max_in_flight());
            most = most.max(s.in_flight());
        }
        assert!(!in_flight.is_empty());
        step += 7;
        let k = in_flight.remove(step % in_flight.len());
        assert!(s.complete(k, !fails(k)));
        assert!(s.in_flight() <= s.max_in_flight());
        order.push(k);
    }
    (most, order)
}

#[test]
fn ceiling_is_never_exceeded() {
    for &k in &[1usize, 10, 100] {
        for &n in &[0i64, 1, 9, 10, 11, 99, 100, 101, 1000] {
            let mut s = Scheduler::new(hours(n), k);
            let (most, order) = drive(&mut s, &|i| i % 3 == 0);
            assert!(most <= k);
            assert_eq!(most, k.min(n as usize));
            assert_eq!(order.len(), n as usize);
            assert_eq!(s.completed(), s.total());
        }
    }
}

#[test]
fn every_unit_ends_exactly_once() {
    let n = 57;
    let mut s = Scheduler::new(hours(n), PAPERTRAIL_PARALLEL_REQUESTS);
    let (_, mut order) = drive(&mut s, &|i| i % 4 == 1);
    assert_eq!(s.completed(), 57);
    assert_eq!(s.total(), 57);
    assert_eq!(s.in_flight(), 0);
    assert_eq!(s.failed(), 14);
    for i in 0..57usize {
        let expected = if i % 4 == 1 { UnitState::Failed } else { UnitState::Succeeded };
        assert_eq!(s.state(i), expected);
        assert_eq!(s.unit(i).index, 464592 + i as i64);
    }
    order.sort();
    assert_eq!(order, (0..57).collect::<Vec<usize>>());
}

#[test]
fn repeated_or_stray_reports_are_refused() {
    let mut s = Scheduler::new(hours(3), 2);
    assert!(!s.complete(0, true));
    assert_eq!(s.dispatch(), Some(0));
    assert_eq!(s.dispatch(), Some(1));
    assert_eq!(s.dispatch(), None);
    assert!(!s.complete(2, true));
    assert!(!s.complete(7, true));
    assert!(s.complete(1, false));
    assert!(!s.complete(1, true));
    assert_eq!(s.state(1), UnitState::Failed);
    assert_eq!(s.completed(), 1);
    assert_eq!(s.failed(), 1);
    assert_eq!(s.dispatch(), Some(2));
    assert!(s.complete(0, true));
    assert!(s.complete(2, true));
    assert!(s.is_done());
    assert_eq!(s.dispatch(), None);
    assert_eq!(s.completed(), 3);
    assert_eq!(s.failed(), 1);
}

#[test]
fn empty_range_dispatches_nothing() {
    let a = hour(JAN_1_2023);
    let b = hour(JAN_1_2023 + 3600);
    for (start, end) in [(a, a), (b, a)] {
        let mut s = plan_run(start, end, 10);
        assert!(s.is_done());
        assert_eq!(s.total(), 0);
        assert_eq!(s.dispatch(), None);
    }
}

/// A fixed backend: the archive of each URL is its own text, except for the
/// URLs that contain `bad`, which answer 500.
fn backend(url: &str, bad: &[&str]) -> (u16, Vec<u8>) {
    if bad.iter().any(|b| url.contains(b)) {
        (500, b"internal error".to_vec())
    } else {
        (200, url.as_bytes().to_vec())
    }
}

/// Runs `[start, end)` against `backend`, writing into `files`.
fn run(start: Hour, end: Hour, bad: &[&str], files: &mut HashMap<String, Vec<u8>>) -> usize {
    let mut s = plan_run(start, end, 2);
    let mut pending = Vec::new();
    let mut failures = 0;
    while !s.is_done() {
        while let Some(i) = s.dispatch() {
            pending.push(i);
        }
        let i = pending.pop().unwrap();
        let plan = plan_fetch(&"tok".to_string(), &"out".to_string(), &s.unit(i));
        let (status, body) = backend(&plan.url, bad);
        let ok = match respond(&plan, status, body) {
            Action::Write { path, bytes } => {
                files.insert(path, bytes);
                true
            }
            Action::Fail { .. } => {
                failures += 1;
                false
            }
        };
        assert!(s.complete(i, ok));
    }
    failures
}

#[test]
fn failed_unit_does_not_stop_the_others() {
    let start = hour(JAN_1_2023);
    let end = hour(JAN_1_2023 + 5 * 3600);
    let mut files = HashMap::new();
    assert_eq!(run(start, end, &["2023-01-01-02"], &mut files), 1);
    let mut names: Vec<&String> = files.keys().collect();
    names.sort();
    assert_eq!(
        names,
        vec![
            "out/2023-01-01-00.tsv.gz",
            "out/2023-01-01-01.tsv.gz",
            "out/2023-01-01-03.tsv.gz",
            "out/2023-01-01-04.tsv.gz",
        ]
    );
    assert_eq!(
        files["out/2023-01-01-03.tsv.gz"],
        b"https://papertrailapp.com/api/v1/archives/2023-01-01-03/download".to_vec()
    );
}

#[test]
fn second_run_leaves_the_same_files() {
    let start = hour(JAN_1_2023);
    let end = hour(JAN_1_2023 + 6 * 3600);
    let mut files = HashMap::new();
    run(start, end, &["2023-01-01-04"], &mut files);
    let first = files.clone();
    run(start, end, &["2023-01-01-04"], &mut files);
    assert_eq!(files, first);
    assert_eq!(files.len(), 5);
}

#[test]
fn three_hour_scenario() {
    let start = hour(JAN_1_2023);
    let end = hour(JAN_1_2023 + 3 * 3600);
    let mut s = plan_run(start, end, PAPERTRAIL_PARALLEL_REQUESTS);
    assert_eq!(s.total(), 3);
    let mut urls = Vec::new();
    let mut paths = Vec::new();
    while let Some(i) = s.dispatch() {
        let plan = plan_fetch(&"tok".to_string(), &"out".to_string(), &s.unit(i));
        urls.push(plan.url);
        paths.push(plan.path);
    }
    assert_eq!(s.in_flight(), 3);
    assert_eq!(
        urls,
        vec![
            "https://papertrailapp.com/api/v1/archives/2023-01-01-00/download",
            "https://papertrailapp.com/api/v1/archives/2023-01-01-01/download",
            "https://papertrailapp.com/api/v1/archives/2023-01-01-02/download",
        ]
    );
    assert_eq!(
        paths,
        vec!["out/2023-01-01-00.tsv.gz", "out/2023-01-01-01.tsv.gz", "out/2023-01-01-02.tsv.gz"]
    );
    for i in 0..3 {
        assert!(s.complete(i, true));
    }
    assert!(s.is_done());
}
