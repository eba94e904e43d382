use fuzzconf::log::Log;
use std::collections::HashSet;
use std::time::SystemTime;

fn distinct(reports: &[u64]) -> usize {
    let mut seen: HashSet<u64> = HashSet::new();
    for r in reports {
        seen.insert(*r);
    }
    seen.len()
}

#[test]
fn new_log_is_empty() {
    let before = SystemTime::now();
    let log = Log::new();
    let after = SystemTime::now();
    assert_eq!(log.seed_count, 0);
    assert_eq!(log.crash_count, 0);
    assert_eq!(log.uniq_crash_count, 0);
    assert!(log.crash_paths.is_empty());
    assert_eq!(log.exec_count, 0);
    assert_eq!(log.total_node, 0);
    assert!(before <= log.start_time);
    assert!(log.start_time <= after);
}

#[test]
fn first_crash_gets_ordinal_one() {
    let mut log = Log::new();
    assert_eq!(log.record_crash(0xdead_beef), Some(1));
    assert_eq!(log.crash_count, 1);
    assert_eq!(log.uniq_crash_count, 1);
    assert!(log.crash_paths.contains(&0xdead_beef));
}

#[test]
fn duplicate_is_counted_but_not_numbered() {
    let mut log = Log::new();
    assert_eq!(log.record_crash(42), Some(1));
    assert_eq!(log.record_crash(42), None);
    assert_eq!(log.record_crash(42), None);
    assert_eq!(log.crash_count, 3);
    assert_eq!(log.uniq_crash_count, 1);
    assert_eq!(log.crash_paths.len(), 1);
}

#[test]
fn ordinals_follow_first_occurrence() {
    let reports: Vec<u64> = vec![5, 9, 5, 1, 9, 9, 7, 1, 5, 2];
    let expected: Vec<Option<u32>> = vec![
        Some(1),
        Some(2),
        None,
        Some(3),
        None,
        None,
        Some(4),
        None,
        None,
        Some(5),
    ];
    let mut log = Log::new();
    let mut got: Vec<Option<u32>> = Vec::new();
    for r in &reports {
        got.push(log.record_crash(*r));
    }
    assert_eq!(got, expected);
    assert_eq!(log.crash_count, 10);
    assert_eq!(log.uniq_crash_count, 5);
}

#[test]
fn unique_count_is_number_of_distinct_signatures() {
    let mut reports: Vec<u64> = Vec::new();
    let mut x: u64 = 12345;
    for _ in 0..500 {
        x = x.wrapping_mul(6364136223846793005).wrapping_add(1442695040888963407);
        reports.push((x >> 33) % 37);
    }
    let mut log = Log::new();
    let mut issued: Vec<u32> = Vec::new();
    for r in &reports {
        if let Some(n) = log.record_crash(*r) {
            issued.push(n);
        }
    }
    let k: usize = distinct(&reports);
    assert_eq!(log.uniq_crash_count as usize, k);
    assert_eq!(log.crash_paths.len(), k);
    assert_eq!(log.crash_count as usize, reports.len());
    let consecutive: Vec<u32> = (1..=k as u32).collect();
    assert_eq!(issued, consecutive);
}

#[test]
fn crash_handling_leaves_other_counters_alone() {
    let mut log = Log::new();
    log.seed_count = 3;
    log.exec_count = 1000;
    log.total_node = 17;
    let started = log.start_time;
    log.record_crash(1);
    log.record_crash(1);
    log.record_crash(2);
    assert_eq!(log.seed_count, 3);
    assert_eq!(log.exec_count, 1000);
    assert_eq!(log.total_node, 17);
    assert_eq!(log.start_time, started);
}

#[test]
fn extreme_signatures_are_kept_apart() {
    let mut log = Log::new();
    assert_eq!(log.record_crash(0), Some(1));
    assert_eq!(log.record_crash(u64::MAX), Some(2));
    assert_eq!(log.record_crash(0), None);
    assert_eq!(log.record_crash(u64::MAX), None);
    assert_eq!(log.uniq_crash_count, 2);
}

#[test]
fn clone_is_an_independent_snapshot() {
    let mut log = Log::new();
    log.record_crash(10);
    log.record_crash(20);
    log.seed_count = 4;
    let snapshot = log.clone();
    assert_eq!(log.record_crash(30), Some(3));
    assert_eq!(snapshot.crash_count, 2);
    assert_eq!(snapshot.uniq_crash_count, 2);
    assert_eq!(snapshot.seed_count, 4);
    assert_eq!(snapshot.start_time, log.start_time);
    assert_eq!(snapshot.crash_paths.len(), 2);
    assert!(snapshot.crash_paths.contains(&10));
    assert!(snapshot.crash_paths.contains(&20));
    assert!(!snapshot.crash_paths.contains(&30));
    assert!(log.crash_paths.contains(&30));
}
