use swym::epoch::QuiesceEpoch;
use swym::gc::{quiesce_min, FnOnceish, Queued, ThreadGarbage, UNUSED_BAG_COUNT};

fn epoch(e: usize) -> QuiesceEpoch {
    QuiesceEpoch::new(e).unwrap()
}

#[test]
fn seal_and_collect() {
    let mut g: ThreadGarbage<u32> = ThreadGarbage::new();
    assert!(g.is_current_epoch_empty());
    assert!(!g.seal_with_epoch(epoch(3)));
    assert_eq!(g.sealed_len(), 0);
    g.trash(1);
    g.trash(2);
    assert!(!g.is_speculative_bag_empty());
    assert!(!g.seal_with_epoch(epoch(3)));
    g.trash(3);
    assert!(!g.seal_with_epoch(epoch(7)));
    g.trash(4);
    assert!(!g.seal_with_epoch(epoch(9)));
    assert_eq!(g.sealed_len(), 3);
    assert_eq!(g.earliest_epoch(), epoch(3));
    assert_eq!(g.latest_epoch(), epoch(9));
    assert_eq!(g.collect(epoch(3)), Vec::<u32>::new());
    assert_eq!(g.collect(epoch(8)), vec![1, 2, 3]);
    assert_eq!(g.sealed_len(), 1);
    assert_eq!(g.collect(QuiesceEpoch::max_value()), vec![4]);
    assert_eq!(g.sealed_len(), 0);

    g.trash(5);
    g.abort_speculative_garbage();
    assert!(g.is_current_epoch_empty());
    g.trash(6);
    g.leak_current_epoch();
    assert!(g.is_current_epoch_empty());
}

#[test]
fn sealed_bags_fill_up() {
    let mut g: ThreadGarbage<usize> = ThreadGarbage::new();
    for i in 0..UNUSED_BAG_COUNT {
        g.trash(i);
        let full = g.seal_with_epoch(epoch(3 + 2 * i));
        assert_eq!(full, i + 1 == UNUSED_BAG_COUNT);
    }
    assert_eq!(g.collect(epoch(5)), vec![0]);
}

#[test]
fn queued_values_drop_once() {
    let mut q = Queued::new(String::from("garbage"));
    q.call();
    q.call();
}

#[test]
fn quiescing() {
    let observed = [epoch(9), QuiesceEpoch::max_value(), epoch(5), epoch(3)];
    assert_eq!(quiesce_min(&observed, epoch(3)), epoch(5));
    assert_eq!(quiesce_min(&observed, epoch(9)), QuiesceEpoch::max_value());
    assert_eq!(quiesce_min(&[], epoch(3)), QuiesceEpoch::max_value());
}

#[test]
fn leaking_keeps_values_alive() {
    let value = std::rc::Rc::new(7u8);
    let mut g: ThreadGarbage<std::rc::Rc<u8>> = ThreadGarbage::new();
    g.trash(value.clone());
    g.trash(value.clone());
    g.leak_current_epoch();
    assert!(g.is_current_epoch_empty());
    // The queued clones were forgotten, not dropped.
    assert_eq!(std::rc::Rc::strong_count(&value), 3);
    assert!(epoch(3) < epoch(5));
    assert!(QuiesceEpoch::max_value() > epoch(5));
}
