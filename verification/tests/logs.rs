use std::sync::atomic::{AtomicUsize, Ordering};
use swym::bloom::Contained;
use swym::commit::{
    lock_outcome, park_outcome, parkable, should_unpark, try_clear_unpark_bits, CommitLock, Logs,
};
use swym::epoch::{EpochClock, ParkStatus, QuiesceEpoch, FIRST, TICK_SIZE};
use swym::read_log::ReadLog;
use swym::tcell_erased::TCellErased;
use swym::write_log::{bloom_bit, bloom_hash, calc_shift, first_match, Entry, WriteEntry, WriteLog};

fn epoch(e: usize) -> QuiesceEpoch {
    QuiesceEpoch::new(e).unwrap()
}

#[test]
fn read_log_records_and_forgets() {
    let a = TCellErased::new();
    let b = TCellErased::new();
    let mut log = ReadLog::new();
    assert!(log.is_empty());
    assert!(log.next_push_allocates());
    log.record(&a);
    log.record(&b);
    assert_eq!(log.len(), 2);
    assert_eq!(log.epoch_locks().len(), 2);
    assert!(log.validate_reads(epoch(FIRST)));
    log.forget(0);
    assert_eq!(log.epoch_locks().len(), 1);
    assert!(log.entry_at(0).is_none());
    b.current_epoch.unlock_publish(epoch(9));
    assert!(!log.validate_reads(epoch(FIRST)));
    assert!(log.validate_reads(epoch(9)));
    log.clear();
    assert!(log.is_empty());
    assert!(log.validate_reads(epoch(FIRST)));
}

#[test]
fn bloom_hashes() {
    assert_eq!(calc_shift(8), 4);
    assert_eq!(calc_shift(1), 1);
    assert_eq!(calc_shift(16), 5);
    assert_eq!(bloom_bit(0b1_0000, 4), 2);
    assert_eq!(bloom_bit(64 << 4, 4), 1);
    let a = TCellErased::new();
    let h = bloom_hash(&a);
    assert_eq!(h.count_ones(), 1);
}

#[test]
fn write_log_filter_and_find() {
    let words = [AtomicUsize::new(0), AtomicUsize::new(0), AtomicUsize::new(0)];
    let a = TCellErased::new();
    let b = TCellErased::new();
    let mut log = WriteLog::new();
    assert!(log.is_empty());
    assert_eq!(log.word_len(), 0);
    let ha = bloom_hash(&a);
    assert_eq!(log.contained(ha), Contained::No);
    assert_eq!(log.find(&a), None);
    assert_eq!(log.entry(&a), Entry::Vacant { hash: ha });
    log.record(&a, &words, vec![1, 2, 3], ha);
    assert!(!log.is_empty());
    assert_eq!(log.word_len(), 5);
    assert_eq!(log.contained(ha), Contained::Maybe);
    assert_eq!(log.find(&a), Some(0));
    assert_eq!(log.entry(&a), Entry::Occupied { index: 0, hash: ha });
    assert_eq!(log.find(&b), None);
    let hb = bloom_hash(&b);
    log.record(&b, &words, vec![4], hb);
    assert_eq!(log.word_len(), 8);
    assert_eq!(log.find(&b), Some(1));
    assert_eq!(log.epoch_locks().len(), 2);
    assert_eq!(log.write_entries()[0].pending(), &[1, 2, 3]);
    assert!(log.write_entries()[1].is_dest_tcell(&b));
    assert!(!log.write_entries()[1].is_dest_tcell(&a));
    assert!(log.validate_writes(epoch(FIRST)));
    log.clear();
    assert!(log.is_empty());
    assert_eq!(log.contained(ha), Contained::No);
}

#[test]
fn write_entry_deactivation() {
    let words = [AtomicUsize::new(0), AtomicUsize::new(0), AtomicUsize::new(0)];
    let a = TCellErased::new();
    let mut e = swym::write_log::WriteEntryImpl::new(&a, &words, vec![7], 1);
    assert!(e.tcell().is_some());
    assert_eq!(e.word_len(), 3);
    e.deactivate();
    assert!(e.tcell().is_none());
    assert!(!e.is_dest_tcell(&a));
}

#[test]
fn commit_protocol() {
    let words = [AtomicUsize::new(0), AtomicUsize::new(0), AtomicUsize::new(0)];
    let clock = EpochClock::new();
    let read_only = TCellErased::new();
    let written = TCellErased::new();
    let read_and_written = TCellErased::new();
    let pin = clock.now().unwrap();

    let mut logs: Logs<'_, u32> = Logs::new();
    assert!(logs.validate_start_state());
    assert!(!parkable(&logs));
    logs.read_log.record(&read_only);
    logs.read_log.record(&read_and_written);
    logs.write_log.record(&written, &words, vec![1], bloom_hash(&written));
    logs.write_log.record(&read_and_written, &words, vec![2], bloom_hash(&read_and_written));
    logs.garbage.trash(10);
    assert!(parkable(&logs));
    assert!(!should_unpark(&logs, pin));

    assert_eq!(logs.lock_for_commit(pin), CommitLock::Locked(ParkStatus::NoParked));
    // The location both read and written was dropped from the reads.
    assert!(logs.read_log.entry_at(1).is_none());
    assert!(written.current_epoch.is_locked(Ordering::Relaxed));
    assert!(read_and_written.current_epoch.is_locked(Ordering::Relaxed));
    assert!(!read_only.current_epoch.is_locked(Ordering::Relaxed));

    let (sync, full) = logs.finish_commit(&clock).unwrap();
    assert!(!full);
    assert_eq!(sync.get(), FIRST);
    assert_eq!(clock.now().unwrap().get(), FIRST + TICK_SIZE);
    assert!(!written.current_epoch.is_locked(Ordering::Relaxed));
    // The written locations now carry the time after the tick: a transaction pinned before
    // cannot read them, one pinned now can.
    assert!(!pin.read_write_valid_lockable(&written.current_epoch));
    assert!(clock.now().unwrap().read_write_valid_lockable(&written.current_epoch));
    assert!(pin.read_write_valid_lockable(&read_only.current_epoch));
    assert!(logs.validate_start_state());
    assert_eq!(logs.garbage.sealed_len(), 1);
    assert_eq!(logs.garbage.earliest_epoch(), sync);
}

#[test]
fn commit_fails_on_a_newer_location() {
    let words = [AtomicUsize::new(0), AtomicUsize::new(0), AtomicUsize::new(0)];
    let clock = EpochClock::new();
    let pin = clock.now().unwrap();
    let a = TCellErased::new();
    let b = TCellErased::new();
    let mut logs: Logs<'_, u32> = Logs::new();
    logs.write_log.record(&a, &words, vec![1], bloom_hash(&a));
    logs.write_log.record(&b, &words, vec![2], bloom_hash(&b));
    b.current_epoch.unlock_publish(epoch(9));
    assert_eq!(logs.lock_for_commit(pin), CommitLock::Failed);
    // The lock taken on the first location was undone.
    assert!(!a.current_epoch.is_locked(Ordering::Relaxed));
    assert!(!b.current_epoch.is_locked(Ordering::Relaxed));
    assert!(should_unpark(&logs, pin));

    let c = TCellErased::new();
    let mut logs2: Logs<'_, u32> = Logs::new();
    logs2.read_log.record(&c);
    logs2.write_log.record(&a, &words, vec![1], bloom_hash(&a));
    c.current_epoch.unlock_publish(epoch(9));
    assert_eq!(logs2.lock_for_commit(pin), CommitLock::Failed);
    assert!(!a.current_epoch.is_locked(Ordering::Relaxed));
}

#[test]
fn empty_commit() {
    let clock = EpochClock::new();
    let pin = clock.now().unwrap();
    let a = TCellErased::new();
    let mut logs: Logs<'_, u32> = Logs::new();
    logs.read_log.record(&a);
    assert_eq!(logs.lock_for_commit(pin), CommitLock::Locked(ParkStatus::NoParked));
    logs.commit_empty_write_log();
    assert!(logs.validate_start_state());
}

#[test]
fn parking_bits() {
    let words = [AtomicUsize::new(0), AtomicUsize::new(0), AtomicUsize::new(0)];
    let pin = epoch(FIRST);
    let a = TCellErased::new();
    let b = TCellErased::new();
    let mut logs: Logs<'_, u32> = Logs::new();
    logs.read_log.record(&a);
    logs.write_log.record(&b, &words, vec![1], bloom_hash(&b));
    assert!(try_clear_unpark_bits(&logs, pin));
    // Both bits are clear now: locking reports the parked thread.
    assert_eq!(a.current_epoch.try_lock(pin), Some(ParkStatus::HasParked));
    a.current_epoch.unlock_undo();
    a.current_epoch.set_unpark_bit();
    b.current_epoch.set_unpark_bit();

    b.current_epoch.unlock_publish(epoch(9));
    assert!(!try_clear_unpark_bits(&logs, pin));
    // The bit cleared on the first location was set again.
    assert_eq!(a.current_epoch.try_lock(pin), Some(ParkStatus::NoParked));
}

#[test]
fn reset_only_the_bits_cleared_here() {
    let steps = vec![Some(ParkStatus::NoParked), Some(ParkStatus::HasParked), Some(ParkStatus::NoParked), None];
    let (ok, mask) = park_outcome(&steps);
    assert!(!ok);
    assert_eq!(mask, vec![true, false, true, false]);
    let (ok, mask) = park_outcome(&vec![Some(ParkStatus::NoParked), Some(ParkStatus::HasParked)]);
    assert!(ok);
    assert_eq!(mask, vec![false, false]);
    let (ok, mask) = park_outcome(&vec![]);
    assert!(ok);
    assert!(mask.is_empty());
}

#[test]
fn lock_outcome_merges_or_fails() {
    assert_eq!(lock_outcome(&vec![]), Some(ParkStatus::NoParked));
    assert_eq!(
        lock_outcome(&vec![Some(ParkStatus::NoParked), Some(ParkStatus::HasParked)]),
        Some(ParkStatus::HasParked)
    );
    assert_eq!(lock_outcome(&vec![Some(ParkStatus::NoParked), Some(ParkStatus::NoParked)]), Some(ParkStatus::NoParked));
    assert_eq!(lock_outcome(&vec![Some(ParkStatus::HasParked), None]), None);
}

#[test]
fn first_match_finds_the_first() {
    assert_eq!(first_match(&vec![false, true, true]), Some(1));
    assert_eq!(first_match(&vec![true]), Some(0));
    assert_eq!(first_match(&vec![false, false]), None);
    assert_eq!(first_match(&vec![]), None);
}

#[test]
fn parking_resets_only_its_own_bits() {
    let a = TCellErased::new();
    let b = TCellErased::new();
    let c = TCellErased::new();
    let e3 = epoch(FIRST);
    // Another thread is parked on `a`: its unpark bit is already clear.
    assert_eq!(a.current_epoch.try_clear_unpark_bit(e3), Some(ParkStatus::NoParked));
    // `c` was written after the pin.
    assert!(c.current_epoch.try_lock(e3).is_some());
    c.current_epoch.unlock_publish(epoch(FIRST + 2 * TICK_SIZE));
    let mut logs: Logs<'_, u32> = Logs::new();
    logs.read_log.record(&a);
    logs.read_log.record(&b);
    logs.read_log.record(&c);
    assert!(!try_clear_unpark_bits(&logs, e3));
    // The bit of `b`, cleared by the attempt, was set again; that of `a` stays clear.
    assert_eq!(b.current_epoch.try_lock(e3), Some(ParkStatus::NoParked));
    assert_eq!(a.current_epoch.try_lock(e3), Some(ParkStatus::HasParked));
}
