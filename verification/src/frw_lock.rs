//! A very simple and cheap spinning reader writer lock, guarding the list of threads taking part
//! in transactions.
//!
//! The word counts the readers in its low bits; its most significant bit is set while a writer
//! holds (or waits for) the lock. Each operation performs one atomic step; the waiting loops are
//! driven by the caller with the step functions here.

use vstd::prelude::*;
use std::sync::atomic::AtomicUsize;
use std::sync::atomic::Ordering;

verus! {

/// The writer bit.
pub const WRITE_BIT: usize = usize::MAX / 2 + 1;

/// The reader count bits.
pub const READ_MASK: usize = usize::MAX / 2;

proof fn lemma_frw_bits(val: usize)
    ensures
        (val & WRITE_BIT != 0) == (val >= WRITE_BIT),
        (val & READ_MASK) == val % WRITE_BIT,
        val < WRITE_BIT ==> (val | WRITE_BIT) == val + WRITE_BIT,
{
    let m = usize::MAX;
    assert(!0usize >= m) by (bit_vector);
    assert(((!0usize) >> 1usize) == (!0usize) / 2) by (bit_vector);
    assert((val & (((!0usize) >> 1usize) + 1) as usize != 0) == (val >= (((!0usize) >> 1usize)
        + 1) as usize)) by (bit_vector);
    assert((val & ((!0usize) >> 1usize)) == val % (((!0usize) >> 1usize) + 1) as usize)
        by (bit_vector);
    assert(val < (((!0usize) >> 1usize) + 1) as usize ==> (val | (((!0usize) >> 1usize)
        + 1) as usize) == val + (((!0usize) >> 1usize) + 1) as usize) by (bit_vector);
}

/// Returns true if the writer bit is set.
pub fn write_locked(val: usize) -> (r: bool)
    ensures
        r == (val >= WRITE_BIT),
{
    proof {
        lemma_frw_bits(val);
    }
    val & WRITE_BIT != 0
}

/// Returns true if some reader holds the lock.
pub fn shared_locked(val: usize) -> (r: bool)
    ensures
        r == (val % WRITE_BIT != 0),
{
    proof {
        lemma_frw_bits(val);
    }
    val & READ_MASK != 0
}

/// One attempt of a reader that found a writer: from the observed word, the word to replace
/// and its replacement with one more reader; `None` while a writer holds the lock or if the
/// reader count would overflow.
pub open spec fn shared_retry_transition(observed: usize) -> Option<(usize, usize)> {
    if observed == usize::MAX || observed + 1 >= WRITE_BIT {
        None
    } else {
        Some((observed, (observed + 1) as usize))
    }
}

/// One attempt of a reader that found a writer.
pub fn shared_retry_step(observed: usize) -> (r: Option<(usize, usize)>)
    ensures
        r == shared_retry_transition(observed),
{
    match observed.checked_add(1) {
        Some(read_state) => {
            if !write_locked(read_state) {
                Some((observed, read_state))
            } else {
                None
            }
        },
        None => None,
    }
}

/// One attempt of a writer: the word with the writer bit set, unless another writer got there
/// first.
pub open spec fn exclusive_request_transition(prev: usize) -> Option<usize> {
    if prev >= WRITE_BIT {
        None
    } else {
        Some((prev + WRITE_BIT) as usize)
    }
}

/// One attempt of a writer.
pub fn exclusive_request_step(prev: usize) -> (r: Option<usize>)
    ensures
        r == exclusive_request_transition(prev),
{
    proof {
        lemma_frw_bits(prev);
    }
    if write_locked(prev) {
        None
    } else {
        Some(prev | WRITE_BIT)
    }
}

/// A spinning reader writer lock.
#[derive(Debug)]
pub struct FrwLock {
    read_count: AtomicUsize,
}

impl FrwLock {
    /// An unlocked lock.
    pub fn new() -> (r: Self) {
        FrwLock { read_count: AtomicUsize::new(0) }
    }

    /// A lock held by a writer.
    pub fn new_locked() -> (r: Self) {
        FrwLock { read_count: AtomicUsize::new(WRITE_BIT) }
    }

    /// Registers a reader. Returns false if a writer held the lock: the caller then takes the
    /// slow path, `lock_shared_slow`.
    pub fn lock_shared(&self) -> bool {
        let prev = self.read_count.fetch_add(1, Ordering::Acquire);
        !write_locked(prev)
    }

    /// Releases a reader.
    pub fn unlock_shared(&self) {
        let _ = self.read_count.fetch_sub(1, Ordering::Release);
    }

    /// Tries to take the lock for a writer at once. Returns false if that failed: the caller
    /// then takes the slow path, `request_exclusive_lock` then `readers_done`.
    pub fn lock_exclusive(&self) -> bool {
        self.read_count.compare_exchange_weak(0, WRITE_BIT, Ordering::Acquire, Ordering::Relaxed).is_ok()
    }

    /// Releases the writer.
    pub fn unlock_exclusive(&self) {
        let _ = self.read_count.fetch_and(READ_MASK, Ordering::Release);
    }

    /// Withdraws the reader registered by a failed `lock_shared`.
    pub fn lock_shared_slow(&self) {
        let _ = self.read_count.fetch_sub(1, Ordering::Relaxed);
    }

    /// One attempt of a reader waiting for a writer. Returns true if the reader now holds the
    /// lock.
    pub fn try_lock_shared_once(&self) -> bool {
        let observed = self.read_count.load(Ordering::Relaxed);
        match shared_retry_step(observed) {
            Some((current, next)) => self.read_count.compare_exchange_weak(
                current,
                next,
                Ordering::Acquire,
                Ordering::Relaxed,
            ).is_ok(),
            None => false,
        }
    }

    /// One attempt of a writer to set the writer bit. On success returns the reader count word
    /// observed before, whose readers the writer must wait for.
    pub fn request_exclusive_lock(&self) -> Option<usize> {
        let prev = self.read_count.load(Ordering::Relaxed);
        match exclusive_request_step(prev) {
            Some(next) => match self.read_count.compare_exchange_weak(
                prev,
                next,
                Ordering::Acquire,
                Ordering::Relaxed,
            ) {
                Ok(_) => Some(prev),
                Err(_) => None,
            },
            None => None,
        }
    }

    /// Returns true once the readers present when the writer bit was set are gone.
    pub fn wait_for_readers(&self) -> bool {
        !shared_locked(self.read_count.load(Ordering::Acquire))
    }
}

/// `std::hint::spin_loop`: a hint to the processor that the caller spins. It has no result and
/// changes nothing that the library can observe, so nothing is stated.
#[verifier::external_body]
pub fn backoff() {
    std::hint::spin_loop()
}

/// A writer only sets the writer bit on a word without one, and keeps the reader count: a second
/// writer cannot get in, and the first waits for the readers it found.
pub proof fn law_one_writer(prev: usize)
    ensures
        prev >= WRITE_BIT ==> exclusive_request_transition(prev) is None,
        prev < WRITE_BIT ==> (exclusive_request_transition(prev) matches Some(next) && next
            >= WRITE_BIT && next % WRITE_BIT == prev),
{
    if prev < WRITE_BIT {
        let w = WRITE_BIT as int;
        let p = prev as int;
        assert((p + w) % w == p) by (nonlinear_arith)
            requires
                0 <= p < w,
        {
            vstd::arithmetic::div_mod::lemma_mod_add_multiples_vanish(p, w);
            vstd::arithmetic::div_mod::lemma_small_mod(p as nat, w as nat);
        }
    }
}

/// A waiting reader only registers on a word without a writer.
pub proof fn law_reader_waits_for_writer(observed: usize)
    ensures
        shared_retry_transition(observed) matches Some((cur, next)) ==> cur == observed && next
            == observed + 1 && next < WRITE_BIT,
{
}

} // verus!
