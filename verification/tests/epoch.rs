use std::sync::atomic::Ordering;
use swym::epoch::{
    all_valid_words, quiesced, as_unlocked, clear_unpark_bit, lock_bit_set, lock_step, park_status, toggle_lock_bit,
    unpark_bit_set, unpark_step, EpochClock, EpochLock, ParkStatus, QuiesceEpoch, ThreadEpoch,
    UnparkStep, FIRST, INACTIVE_EPOCH, LOCK_BIT, TICK_SIZE, UNPARK_BIT,
};

fn epoch(e: usize) -> QuiesceEpoch {
    QuiesceEpoch::new(e).unwrap()
}

#[test]
fn epoch_word_bits() {
    assert_eq!(LOCK_BIT, 1usize << (usize::BITS - 1));
    assert_eq!(INACTIVE_EPOCH, !0);
    assert_eq!(FIRST, TICK_SIZE + UNPARK_BIT);
    assert!(lock_bit_set(LOCK_BIT | 5));
    assert!(!lock_bit_set(5));
    assert_eq!(as_unlocked(LOCK_BIT | 5), 5);
    assert_eq!(as_unlocked(5), 5);
    assert_eq!(toggle_lock_bit(5), LOCK_BIT | 5);
    assert_eq!(toggle_lock_bit(toggle_lock_bit(5)), 5);
    assert!(unpark_bit_set(5));
    assert!(!unpark_bit_set(4));
    assert_eq!(clear_unpark_bit(5), 4);
    assert_eq!(clear_unpark_bit(4), 4);
}

#[test]
fn quiesce_epochs() {
    let e = epoch(FIRST);
    assert_eq!(e.get(), 3);
    assert!(e.is_active());
    assert!(!QuiesceEpoch::max_value().is_active());
    assert_eq!(QuiesceEpoch::max_value().get(), INACTIVE_EPOCH);
    assert_eq!(QuiesceEpoch::end_of_time().get(), LOCK_BIT - 1);
    assert!(QuiesceEpoch::end_of_time().is_active());
    assert_eq!(e.next().get(), 5);
    assert!(e.read_write_valid(3));
    assert!(!e.read_write_valid(5));
    assert!(e.read_write_valid_(1));
}

#[test]
fn park_statuses() {
    let no = ParkStatus::NoParked;
    let has = ParkStatus::HasParked;
    assert_eq!(no.merge(no), no);
    assert_eq!(no.merge(has), has);
    assert_eq!(has.merge(no), has);
    assert_eq!(has.merge(has), has);
    assert_eq!(park_status(5), no);
    assert_eq!(park_status(4), has);
}

#[test]
fn lock_and_unpark_steps() {
    let pin = epoch(7);
    assert_eq!(lock_step(5, pin), Some((LOCK_BIT | 5, ParkStatus::NoParked)));
    assert_eq!(lock_step(6, pin), Some((LOCK_BIT | 6, ParkStatus::HasParked)));
    assert_eq!(lock_step(9, pin), None);
    assert_eq!(lock_step(LOCK_BIT | 5, pin), None);
    assert_eq!(unpark_step(5, pin), UnparkStep::Clear(4));
    assert_eq!(unpark_step(4, pin), UnparkStep::AlreadyParked);
    assert_eq!(unpark_step(9, pin), UnparkStep::Invalid);
}

#[test]
fn epoch_lock_protocol() {
    let lock = EpochLock::first();
    let pin = epoch(FIRST);
    assert!(!lock.is_locked(Ordering::Relaxed));
    assert!(pin.read_write_valid_lockable(&lock));
    assert_eq!(lock.try_lock(pin), Some(ParkStatus::NoParked));
    assert!(lock.is_locked(Ordering::Relaxed));
    // A locked location is never valid to read.
    assert!(!pin.read_write_valid_lockable(&lock));
    assert_eq!(lock.try_lock(pin), None);
    lock.unlock_undo();
    assert!(!lock.is_locked(Ordering::Relaxed));
    assert!(pin.read_write_valid_lockable(&lock));

    assert_eq!(lock.try_clear_unpark_bit(pin), Some(ParkStatus::NoParked));
    assert_eq!(lock.try_clear_unpark_bit(pin), Some(ParkStatus::HasParked));
    assert_eq!(lock.try_lock(pin), Some(ParkStatus::HasParked));
    lock.unlock_undo();
    lock.set_unpark_bit();

    assert_eq!(lock.try_lock(pin), Some(ParkStatus::NoParked));
    lock.unlock_publish(epoch(9));
    assert!(!lock.is_locked(Ordering::Relaxed));
    assert!(!pin.read_write_valid_lockable(&lock));
    assert!(epoch(9).read_write_valid_lockable(&lock));
    assert_eq!(lock.try_lock(pin), None);
    assert_eq!(lock.try_clear_unpark_bit(pin), None);
}

#[test]
fn thread_epochs() {
    let t = ThreadEpoch::inactive();
    assert!(!t.load_epoch(Ordering::Relaxed).is_active());
    assert!(t.is_quiesced(epoch(5), Ordering::Relaxed));
    t.pin(epoch(5), Ordering::Relaxed);
    assert_eq!(t.load_epoch(Ordering::Relaxed).get(), 5);
    assert!(!t.is_quiesced(epoch(5), Ordering::Relaxed));
    assert!(t.is_quiesced(epoch(3), Ordering::Relaxed));
    t.repin(epoch(9), Ordering::Relaxed);
    assert_eq!(t.load_epoch(Ordering::Relaxed).get(), 9);
    t.unpin(Ordering::Relaxed);
    assert_eq!(t.load_epoch(Ordering::Relaxed).get(), INACTIVE_EPOCH);
    t.set_collect_epoch();
    assert_eq!(t.load_epoch(Ordering::Relaxed).get(), LOCK_BIT - 1);
}

#[test]
fn epoch_clock() {
    let clock = EpochClock::new();
    assert_eq!(clock.now().unwrap().get(), FIRST);
    assert_eq!(clock.fetch_and_tick().get(), FIRST);
    assert_eq!(clock.now().unwrap().get(), FIRST + TICK_SIZE);
    assert!(unpark_bit_set(clock.now().unwrap().get()));
}

#[test]
fn observed_words_decide_validity() {
    let pin = epoch(FIRST + 2 * TICK_SIZE);
    assert!(all_valid_words(pin, &vec![]));
    assert!(all_valid_words(pin, &vec![FIRST, FIRST + 2 * TICK_SIZE]));
    assert!(!all_valid_words(pin, &vec![FIRST, FIRST + 4 * TICK_SIZE]));
    assert!(!all_valid_words(pin, &vec![FIRST | LOCK_BIT]));
    let a = EpochLock::first();
    let b = EpochLock::first();
    let words = vec![a.observe(), b.observe()];
    assert!(all_valid_words(pin, &words));
    assert!(b.try_lock(pin).is_some());
    assert!(!all_valid_words(pin, &vec![a.observe(), b.observe()]));
}

#[test]
fn quiesced_is_strictly_after() {
    assert!(quiesced(epoch(FIRST + TICK_SIZE), epoch(FIRST)));
    assert!(!quiesced(epoch(FIRST), epoch(FIRST)));
    assert!(!quiesced(epoch(FIRST), epoch(FIRST + TICK_SIZE)));
    assert!(quiesced(QuiesceEpoch::end_of_time(), epoch(FIRST)));
}
