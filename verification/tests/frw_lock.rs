use swym::frw_lock::{
    exclusive_request_step, shared_locked, shared_retry_step, write_locked, FrwLock, READ_MASK,
    WRITE_BIT,
};

fn send_sync<T: Send + Sync>() {}

#[test]
fn is_send_sync() {
    send_sync::<FrwLock>()
}

#[test]
fn lock_word_bits() {
    assert_eq!(WRITE_BIT, 1usize << (usize::BITS - 1));
    assert_eq!(READ_MASK, !WRITE_BIT);
    assert!(write_locked(WRITE_BIT));
    assert!(!write_locked(5));
    assert!(shared_locked(WRITE_BIT + 1));
    assert!(!shared_locked(WRITE_BIT));
    assert!(!shared_locked(0));
    assert_eq!(exclusive_request_step(3), Some(WRITE_BIT | 3));
    assert_eq!(exclusive_request_step(WRITE_BIT), None);
    assert_eq!(shared_retry_step(2), Some((2, 3)));
    assert_eq!(shared_retry_step(WRITE_BIT - 1), None);
    assert_eq!(shared_retry_step(usize::MAX), None);
}

#[test]
fn readers_and_writers() {
    let lock = FrwLock::new();
    assert!(lock.lock_shared());
    assert!(lock.lock_shared());
    assert!(!lock.wait_for_readers());
    lock.unlock_shared();
    lock.unlock_shared();
    assert!(lock.wait_for_readers());
    assert!(lock.lock_exclusive() || lock.lock_exclusive() || lock.lock_exclusive());
    assert!(!lock.lock_shared());
    lock.lock_shared_slow();
    assert!(!lock.try_lock_shared_once());
    lock.unlock_exclusive();
    assert!(lock.try_lock_shared_once() || lock.try_lock_shared_once());
    lock.unlock_shared();
    let held = FrwLock::new_locked();
    assert_eq!(held.request_exclusive_lock(), None);
    let free = FrwLock::new();
    let mut got = None;
    for _ in 0..100 {
        got = free.request_exclusive_lock();
        if got.is_some() {
            break;
        }
    }
    assert_eq!(got, Some(0));
    swym::frw_lock::backoff();
}
