use swym::stats::{stats, thread_stats, Event, MinMaxTotal, Size, Stats, Summary, ThreadStats};

#[test]
fn size_record_and_merge() {
    let mut a = Size::new();
    assert_eq!(a.count(), 0);
    assert_eq!(a.min_max_total(), None);
    a.record(5);
    a.record(2);
    a.record(9);
    assert_eq!(a.count(), 3);
    assert_eq!(a.min_max_total(), Some(MinMaxTotal { min: 2, max: 9, total: 16 }));
    let mut b = Size::new();
    b.record(1);
    a.merge(&b);
    assert_eq!(a.count(), 4);
    assert_eq!(a.min_max_total(), Some(MinMaxTotal { min: 1, max: 9, total: 17 }));
    let empty = Size::new();
    a.merge(&empty);
    assert_eq!(a.min_max_total(), Some(MinMaxTotal { min: 1, max: 9, total: 17 }));
    let mut c = Size::new();
    c.merge(&a);
    assert_eq!(c.count(), 4);
    assert_eq!(c.min_max_total(), Some(MinMaxTotal { min: 1, max: 9, total: 17 }));
}

#[test]
fn events() {
    let mut e = Event::new();
    e.happened();
    e.happened();
    let mut f = Event::new();
    f.happened();
    e.merge(&f);
    assert_eq!(e.count(), 3);
}

#[test]
fn thread_stats_flush() {
    let mut global = Stats::new();
    let mut local = ThreadStats::new();
    local.get_mut().read_size.record(4);
    local.get_mut().bloom_check.happened();
    assert_eq!(local.get().read_size.count(), 1);
    local.flush(&mut global);
    assert_eq!(global.read_size.count(), 1);
    assert_eq!(global.bloom_check.count(), 1);
    assert_eq!(local.get().read_size.count(), 0);
    assert!(stats(false, &global).is_none());
    assert_eq!(stats(true, &global).unwrap().read_size.count(), 1);
    assert!(thread_stats(false, &local).is_none());
    assert!(thread_stats(true, &local).is_some());
}

#[test]
fn summary_figures() {
    let mut s = Stats::new();
    assert_eq!(
        s.summary(),
        Some(Summary {
            transactions: 0,
            conflicts: 0,
            htm_conflicts: 0,
            bloom_checks: 0,
            bloom_collisions: 0,
            bloom_slow: 0,
        })
    );
    s.read_transaction_conflicts.record(2);
    s.read_transaction_conflicts.record(0);
    s.write_transaction_eager_conflicts.record(3);
    s.write_transaction_commit_conflicts.record(4);
    s.htm_conflicts.record(7);
    s.bloom_check.happened();
    s.bloom_check.happened();
    s.bloom_collision.happened();
    s.bloom_success_slow.happened();
    let sum = s.summary().unwrap();
    assert_eq!(sum.transactions, 3);
    assert_eq!(sum.conflicts, 9);
    assert_eq!(sum.htm_conflicts, 7);
    assert_eq!(sum.bloom_checks, 2);
    assert_eq!(sum.bloom_collisions, 1);
    assert_eq!(sum.bloom_slow, 2);

    let mut big = Stats::new();
    big.write_transaction_commit_conflicts.record(u64::MAX);
    assert_eq!(big.summary().unwrap().conflicts, u64::MAX);
    big.read_transaction_conflicts.record(1);
    assert_eq!(big.summary(), None);
}

#[test]
fn merge_overflow_check() {
    let mut a = Size::new();
    a.record(u64::MAX);
    let mut b = Size::new();
    assert!(a.can_merge(&b));
    b.record(1);
    assert!(!a.can_merge(&b));
    let mut g = Stats::new();
    let mut l = Stats::new();
    assert!(g.can_merge(&l));
    g.htm_conflicts.record(u64::MAX);
    l.htm_conflicts.record(1);
    assert!(!g.can_merge(&l));
}

#[test]
fn merging_records_is_recording_both() {
    let mut a = Size::new();
    a.record(5);
    a.record(2);
    let mut b = Size::new();
    b.record(9);
    b.record(1);
    a.merge(&b);
    let mut both = Size::new();
    for s in [5, 2, 9, 1] {
        both.record(s);
    }
    assert_eq!(a.count(), both.count());
    assert_eq!(a.min_max_total(), both.min_max_total());
}
