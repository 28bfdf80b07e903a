use std::sync::atomic::Ordering;
use swym::commit::Logs;
use swym::epoch::{EpochClock, QuiesceEpoch, FIRST, TICK_SIZE};
use swym::rw::{CommitOutcome, ReadTx, RwTx, TxOrder};
use swym::tcell::{read_words, Ref, TCell, TValue};
use swym::tx::{Error, ErrorKind};

fn epoch(e: usize) -> QuiesceEpoch {
    QuiesceEpoch::new(e).unwrap()
}

#[test]
fn values_round_trip_through_words() {
    assert_eq!(i32::from_words(&(-5i32).to_words()), -5);
    assert_eq!(isize::from_words(&(-1isize).to_words()), -1);
    assert_eq!((-1i32).to_words(), vec![usize::MAX]);
    assert_eq!(u8::from_words(&200u8.to_words()), 200);
    assert_eq!(u32::from_words(&7u32.to_words()), 7);
    assert_eq!(true.to_words(), vec![1]);
    assert!(!bool::from_words(&[0]));
    assert!(bool::from_words(&[3]));
    assert_eq!(usize::word_count(), 1);
    assert_eq!(u64::word_count(), 2);
    assert_eq!(0x1234_5678_9abc_def0u64.to_words(), vec![0x9abc_def0, 0x1234_5678]);
    assert_eq!(u64::from_words(&u64::MAX.to_words()), u64::MAX);
    assert_eq!(i64::from_words(&i64::MIN.to_words()), i64::MIN);
    assert_eq!(i64::from_words(&(-3i64).to_words()), -3);
    assert_eq!(u16::from_words(&65535u16.to_words()), 65535);
    assert_eq!(i16::from_words(&(-300i16).to_words()), -300);
    assert_eq!(i8::from_words(&(-128i8).to_words()), -128);
}

#[test]
fn two_word_cell() {
    let clock = EpochClock::new();
    let cell = TCell::new(u64::MAX - 1);
    assert_eq!(cell.target().len(), 2);
    let mut tx: RwTx<'_, u32> = RwTx::new(Logs::new(), clock.now().unwrap());
    assert_eq!(cell.get(&mut tx, TxOrder::ReadWrite), Ok(u64::MAX - 1));
    assert!(cell.set(&mut tx, 1u64 << 40).is_ok());
    assert!(matches!(tx.commit(&clock), CommitOutcome::Committed { .. }));
    assert_eq!(cell.into_inner(), 1u64 << 40);
}

#[test]
fn new_cell_holds_its_value() {
    let cell = TCell::new(42usize);
    assert_eq!(cell.optimistic_read(), vec![42]);
    assert_eq!(read_words(cell.target()), vec![42]);
    assert!(!cell.erased().current_epoch.is_locked(Ordering::Relaxed));
    assert_eq!(cell.into_inner(), 42);
}

#[test]
fn read_your_own_writes_then_publish() {
    let clock = EpochClock::new();
    let cell = TCell::new(5u32);
    let pin = clock.now().unwrap();
    let mut tx: RwTx<'_, u32> = RwTx::new(Logs::new(), pin);
    assert_eq!(cell.get(&mut tx, TxOrder::ReadWrite), Ok(5));
    assert!(cell.set(&mut tx, 7).is_ok());
    assert_eq!(cell.get(&mut tx, TxOrder::ReadWrite), Ok(7));
    assert_eq!(cell.replace(&mut tx, 9).ok(), Some(7));
    assert_eq!(cell.get(&mut tx, TxOrder::Read), Ok(9));
    // Nothing is visible before the commit.
    assert_eq!(cell.optimistic_read(), vec![5]);

    match tx.commit(&clock) {
        CommitOutcome::Committed { sync_epoch, collect, .. } => {
            assert_eq!(sync_epoch.get(), FIRST);
            assert!(!collect);
        }
        other => panic!("unexpected outcome {:?}", other),
    }
    assert_eq!(clock.now().unwrap().get(), FIRST + TICK_SIZE);
    assert_eq!(cell.optimistic_read(), vec![9]);
    assert!(tx.logs().validate_start_state());

    // A reader pinned after the commit sees the new value; one pinned before must retry.
    let mut late = ReadTx::new(clock.now().unwrap());
    assert_eq!(cell.get(&mut late, TxOrder::Read), Ok(9));
    let mut early = ReadTx::new(pin);
    assert_eq!(cell.get(&mut early, TxOrder::Read), Err(Error::conflict()));
    assert_eq!(Error::conflict().kind(), ErrorKind::Conflict);
}

#[test]
fn read_only_commit() {
    let clock = EpochClock::new();
    let cell = TCell::new(true);
    let mut tx: RwTx<'_, u32> = RwTx::new(Logs::new(), clock.now().unwrap());
    assert_eq!(cell.get(&mut tx, TxOrder::ReadWrite), Ok(true));
    assert_eq!(tx.logs().read_log.len(), 1);
    assert_eq!(tx.commit(&clock), CommitOutcome::ReadOnly);
    assert_eq!(clock.now().unwrap().get(), FIRST);
    assert!(tx.logs().read_log.is_empty());
}

#[test]
fn conflicting_writer_forces_a_retry() {
    let clock = EpochClock::new();
    let a = TCell::new(1i32);
    let b = TCell::new(2i32);
    let pin = clock.now().unwrap();

    let mut reader: RwTx<'_, u32> = RwTx::new(Logs::new(), pin);
    assert_eq!(a.get(&mut reader, TxOrder::ReadWrite), Ok(1));
    assert!(b.set(&mut reader, 20).is_ok());

    let mut writer: RwTx<'_, u32> = RwTx::new(Logs::new(), pin);
    assert!(a.set(&mut writer, -1).is_ok());
    assert!(matches!(writer.commit(&clock), CommitOutcome::Committed { .. }));
    assert_eq!(a.optimistic_read(), vec![usize::MAX]);

    // The read of `a` is now stale: the commit fails, nothing of `b` is written and the logs
    // are emptied.
    assert_eq!(reader.commit(&clock), CommitOutcome::Conflict);
    assert_eq!(b.optimistic_read(), vec![2]);
    assert!(!b.erased().current_epoch.is_locked(Ordering::Relaxed));
    assert!(reader.logs().read_log.is_empty());
    assert!(reader.logs().write_log.is_empty());

    // Writing a location changed since the pin fails and hands the value back.
    let err = a.set(&mut reader, 30).unwrap_err();
    assert_eq!(err.value, 30);
    assert_eq!(err.error, Error::conflict());
    assert!(reader.logs().write_log.is_empty());

    // A retry pinned now succeeds.
    let mut retry: RwTx<'_, u32> = RwTx::new(Logs::new(), clock.now().unwrap());
    assert_eq!(a.get(&mut retry, TxOrder::ReadWrite), Ok(-1));
    assert!(b.set(&mut retry, 20).is_ok());
    assert!(matches!(retry.commit(&clock), CommitOutcome::Committed { .. }));
    assert_eq!(b.optimistic_read(), vec![20]);
}

#[test]
fn abort_empties_the_logs() {
    let clock = EpochClock::new();
    let cell = TCell::new(3u8);
    let pin = clock.now().unwrap();
    let mut tx: RwTx<'_, u32> = RwTx::new(Logs::new(), pin);
    assert_eq!(cell.get(&mut tx, TxOrder::ReadWrite), Ok(3));
    assert!(cell.set(&mut tx, 4).is_ok());
    tx.trash(11);
    tx.abort();
    assert!(tx.logs().validate_start_state());
    assert_eq!(tx.pin_epoch(), pin);
    assert_eq!(cell.optimistic_read(), vec![3]);
    assert_eq!(tx.into_logs().garbage.sealed_len(), 0);
    assert_eq!(ReadTx::new(epoch(FIRST)).pin_epoch().get(), FIRST);
}

#[test]
fn views_read_and_write() {
    let clock = EpochClock::new();
    let cell = TCell::new(1usize);
    let mut tx: RwTx<'_, u32> = RwTx::new(Logs::new(), clock.now().unwrap());
    {
        let mut v = cell.view(&mut tx);
        assert_eq!(v.get(), Ok(1));
        assert!(v.set(2).is_ok());
        assert_eq!(v.get_ordered(TxOrder::Read), Ok(2));
        assert_eq!(v.borrow().unwrap().into_inner(), 2);
        assert_eq!(*v.borrow_ordered(TxOrder::ReadWrite).unwrap().get(), 2);
        assert_eq!(v.into_borrow().unwrap(), Ref::new(2));
    }
    assert!(matches!(tx.commit(&clock), CommitOutcome::Committed { .. }));
    let mut reader = ReadTx::new(clock.now().unwrap());
    assert_eq!(cell.view(&mut reader).get(), Ok(2));
    assert_eq!(TxOrder::default(), TxOrder::ReadWrite);
}
