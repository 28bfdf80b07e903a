use swym::htm::{
    bounded_retry, htm_supported, BeginCode, BoundedHtxErr, HardwareTx, HtmUsize, TestCode,
    _HTM_STATE, XABORT_CAPACITY, XABORT_CONFLICT, XABORT_EXPLICIT, XABORT_RETRY, XBEGIN_STARTED,
};
use std::sync::atomic::Ordering;

#[test]
fn supported() {
    let supported = htm_supported();
    println!("runtime support check: {}", supported);
}

#[test]
fn begin_codes() {
    assert!(BeginCode::new(XBEGIN_STARTED).is_started());
    let c = BeginCode::new(XABORT_EXPLICIT | XABORT_CAPACITY);
    assert!(!c.is_started());
    assert!(c.is_explicit_abort());
    assert!(c.is_capacity());
    assert!(!c.is_conflict());
    assert!(!c.is_retry());
    let c = BeginCode::new(XABORT_RETRY | XABORT_CONFLICT);
    assert!(c.is_retry());
    assert!(c.is_conflict());
    assert!(!c.is_capacity());
    assert!(TestCode(1).in_transaction());
    assert!(!TestCode(0).in_transaction());
    assert!(!TestCode(1).is_suspended());
}

#[test]
fn htm_state_field() {
    assert_eq!(_HTM_STATE(0b100), 2);
    assert_eq!(_HTM_STATE(0b010), 1);
    assert_eq!(_HTM_STATE(0b001), 0);
    assert_eq!(_HTM_STATE(0b1110), 3);
    assert_eq!(_HTM_STATE(-2), 3);
}

#[test]
fn bounded_retry_policy() {
    let explicit = BeginCode::new(XABORT_EXPLICIT | XABORT_RETRY);
    assert_eq!(bounded_retry(explicit, 0, 3), Err(BoundedHtxErr::AbortOrConflict));
    let conflict = BeginCode::new(XABORT_CONFLICT);
    assert_eq!(bounded_retry(conflict, 0, 3), Err(BoundedHtxErr::AbortOrConflict));
    let retry = BeginCode::new(XABORT_CONFLICT | XABORT_RETRY);
    assert_eq!(bounded_retry(retry, 0, 3), Ok(1));
    assert_eq!(bounded_retry(retry, 2, 3), Ok(3));
    assert_eq!(bounded_retry(retry, 3, 3), Err(BoundedHtxErr::SoftwareFallback));
    let capacity = BeginCode::new(XABORT_CAPACITY);
    assert_eq!(bounded_retry(capacity, 0, 3), Err(BoundedHtxErr::SoftwareFallback));
    let mut count = 2u8;
    assert!(matches!(
        HardwareTx::bounded(&mut count, 3),
        Err(BoundedHtxErr::SoftwareFallback)
    ));
    assert_eq!(count, 2);
}

#[test]
fn htm_usize_is_an_atomic_word() {
    let w = HtmUsize::new(5);
    assert_eq!(w.load(Ordering::Relaxed), 5);
    w.store(7, Ordering::Relaxed);
    assert_eq!(w.fetch_add(2, Ordering::Relaxed), 7);
    assert_eq!(w.fetch_sub(1, Ordering::Relaxed), 9);
    assert_eq!(w.fetch_or(1, Ordering::Relaxed), 8);
    assert_eq!(w.fetch_and(8, Ordering::Relaxed), 9);
    assert_eq!(w.compare_exchange(8, 3, Ordering::Relaxed, Ordering::Relaxed), Ok(8));
    assert_eq!(w.compare_exchange(8, 4, Ordering::Relaxed, Ordering::Relaxed), Err(3));
}
