use rust_benchmark::codec::encode_snapshot;
use rust_benchmark::flush::{flush_decision, writer_tick, FlushAction};
use rust_benchmark::stats::AlgorithmStats;
use rust_benchmark::statsmap::{StatsMap, StatsSnapshot};

#[test]
fn stats_fold_matches_expected_aggregates() {
    // Inject a sequence of durations and compare the final aggregates with
    // the mathematically expected count, sum, minimum and maximum.
    let durations: Vec<u64> = vec![5, 3, 10, 3, 8];
    let mut s = AlgorithmStats::new();
    for &d in &durations {
        s.record(d);
    }
    assert_eq!(s.runs, 5);
    assert_eq!(s.total_nanos, 29);
    assert_eq!(s.min_nanos, 3);
    assert_eq!(s.max_nanos, 10);
}

#[test]
fn stats_single_sample() {
    let mut s = AlgorithmStats::new();
    s.record(7);
    assert_eq!(s.runs, 1);
    assert_eq!(s.total_nanos, 7);
    assert_eq!(s.min_nanos, 7);
    assert_eq!(s.max_nanos, 7);
}

#[test]
fn map_keeps_one_entry_per_name() {
    let mut m = StatsMap::new();
    assert!(m.record("fibonacci", 10));
    assert!(m.record("array_sort", 20));
    assert!(m.record("fibonacci", 30));
    assert_eq!(m.len(), 2);
    let snap = m.take_snapshot();
    assert_eq!(m.len(), 0);
    assert_eq!(snap.len(), 2);
    assert_eq!(snap.entries[0].0, "fibonacci");
    assert_eq!(snap.entries[0].1.runs, 2);
    assert_eq!(snap.entries[0].1.total_nanos, 40);
    assert_eq!(snap.entries[0].1.min_nanos, 10);
    assert_eq!(snap.entries[0].1.max_nanos, 30);
    assert_eq!(snap.entries[1].0, "array_sort");
    assert_eq!(snap.entries[1].1.runs, 1);
}

#[test]
fn counter_near_the_boundary() {
    let mut s = AlgorithmStats {
        runs: u64::MAX - 1,
        total_nanos: 0,
        min_nanos: 0,
        max_nanos: u64::MAX,
    };
    s.record(5);
    assert_eq!(s.runs, u64::MAX);
    assert_eq!(s.total_nanos, 5);
    assert_eq!(s.min_nanos, 0);
    assert_eq!(s.max_nanos, u64::MAX);
}

#[test]
fn empty_tick_skips_the_write() {
    // If no samples arrived during the interval, no file operation happens
    // at all — the previously written file stays untouched.
    let mut m = StatsMap::new();
    assert!(matches!(writer_tick(&mut m), FlushAction::Skip));
    assert!(matches!(writer_tick(&mut m), FlushAction::Skip));
}

#[test]
fn empty_snapshot_decision_skips() {
    let snap = StatsSnapshot::empty();
    assert!(snap.is_empty());
    assert!(matches!(flush_decision(&snap), FlushAction::Skip));
}

#[test]
fn tick_resets_the_map() {
    let mut m = StatsMap::new();
    m.record("fibonacci", 10);
    match writer_tick(&mut m) {
        FlushAction::WriteAndRename(_) => {}
        FlushAction::Skip => panic!("a nonempty snapshot must be written"),
    }
    assert_eq!(m.len(), 0);
    assert!(matches!(writer_tick(&mut m), FlushAction::Skip));
}

#[test]
fn five_runs_of_ten_milliseconds() {
    // One work unit reports 0.01 s exactly five times within one interval:
    // the flushed mapping shows runs=5, total 0.05, min and max 0.01.
    let mut m = StatsMap::new();
    for _ in 0..5 {
        assert!(m.record("array_sort", 10_000_000));
    }
    match writer_tick(&mut m) {
        FlushAction::WriteAndRename(content) => assert_eq!(
            content,
            "array_sort:\n  runs: 5\n  total_time: 0.050000000\n  min_time: 0.010000000\n  max_time: 0.010000000\n"
        ),
        FlushAction::Skip => panic!("a nonempty snapshot must be written"),
    }
}

#[test]
fn empty_snapshot_serializes_to_nothing() {
    let mut m = StatsMap::new();
    let snap = m.take_snapshot();
    assert_eq!(encode_snapshot(&snap), "");
}

#[test]
fn snapshot_serialization_orders_entries() {
    let mut m = StatsMap::new();
    m.record("fibonacci", 1_000_000_000);
    m.record("is_leap_year", 500_000_000);
    let snap = m.take_snapshot();
    let text = encode_snapshot(&snap);
    assert_eq!(
        text,
        "fibonacci:\n  runs: 1\n  total_time: 1.000000000\n  min_time: 1.000000000\n  max_time: 1.000000000\n\
         is_leap_year:\n  runs: 1\n  total_time: 0.500000000\n  min_time: 0.500000000\n  max_time: 0.500000000\n"
    );
}
