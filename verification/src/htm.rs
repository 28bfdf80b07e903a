//! Hardware transactional memory primitives: the status codes reported by the processor, the
//! bounded retry policy of a hardware transaction, and the word that is read both atomically and
//! inside hardware transactions.

use vstd::prelude::*;
use std::sync::atomic::AtomicUsize;
use std::sync::atomic::Ordering;

verus! {

/// Status returned by a successfully started transaction.
pub const XBEGIN_STARTED: u32 = 0xffff_ffff;
/// Flag set when the transaction was aborted explicitly.
pub const XABORT_EXPLICIT: u32 = 1;
/// Flag set when retrying the transaction may succeed.
pub const XABORT_RETRY: u32 = 2;
/// Flag set when the transaction aborted on a memory conflict.
pub const XABORT_CONFLICT: u32 = 4;
/// Flag set when the transaction ran out of capacity.
pub const XABORT_CAPACITY: u32 = 8;

proof fn lemma_flag_bits(code: u32)
    ensures
        (code & 1u32 != 0) == ((code % 2) == 1),
        (code & 2u32 != 0) == ((code / 2) % 2 == 1),
        (code & 4u32 != 0) == ((code / 4) % 2 == 1),
        (code & 8u32 != 0) == ((code / 8) % 2 == 1),
{
    assert((code & 1u32 != 0) == ((code % 2) == 1)) by (bit_vector);
    assert((code & 2u32 != 0) == ((code / 2) % 2 == 1)) by (bit_vector);
    assert((code & 4u32 != 0) == ((code / 4) % 2 == 1)) by (bit_vector);
    assert((code & 8u32 != 0) == ((code / 8) % 2 == 1)) by (bit_vector);
}

/// The result of attempting to begin a hardware transaction.
#[derive(PartialEq, Eq, Structural, Clone, Copy, Debug, Hash)]
pub struct BeginCode(pub u32);

impl BeginCode {
    /// Wraps a raw status word as reported by the processor.
    pub fn new(raw: u32) -> (r: Self)
        ensures
            r.0 == raw,
    {
        BeginCode(raw)
    }

    /// Returns true if the code represents a successfully started transaction.
    pub fn is_started(&self) -> (r: bool)
        ensures
            r == (self.0 == XBEGIN_STARTED),
    {
        self.0 == XBEGIN_STARTED
    }

    /// Returns true if the transaction was explicitly aborted.
    pub fn is_explicit_abort(&self) -> (r: bool)
        ensures
            r == (self.0 % 2 == 1),
    {
        proof {
            lemma_flag_bits(self.0);
        }
        self.0 & XABORT_EXPLICIT != 0
    }

    /// Returns true if retrying the hardware transaction is suggested.
    pub fn is_retry(&self) -> (r: bool)
        ensures
            r == ((self.0 / 2) % 2 == 1),
    {
        proof {
            lemma_flag_bits(self.0);
        }
        self.0 & XABORT_RETRY != 0
    }

    /// Returns true if the transaction aborted due to a memory conflict.
    pub fn is_conflict(&self) -> (r: bool)
        ensures
            r == ((self.0 / 4) % 2 == 1),
    {
        proof {
            lemma_flag_bits(self.0);
        }
        self.0 & XABORT_CONFLICT != 0
    }

    /// Returns true if the transaction aborted due to running out of capacity.
    pub fn is_capacity(&self) -> (r: bool)
        ensures
            r == ((self.0 / 8) % 2 == 1),
    {
        proof {
            lemma_flag_bits(self.0);
        }
        self.0 & XABORT_CAPACITY != 0
    }
}

/// The result of testing the transactional state of the current thread.
#[derive(PartialEq, Eq, Structural, Clone, Copy, Debug, Hash)]
pub struct TestCode(pub u8);

impl TestCode {
    /// Returns true if the current thread is in a hardware transaction.
    pub fn in_transaction(&self) -> (r: bool)
        ensures
            r == (self.0 != 0),
    {
        self.0 != 0
    }

    /// Returns true if the current thread is in a suspended hardware transaction. Suspension does
    /// not exist on this architecture.
    pub fn is_suspended(&self) -> (r: bool)
        ensures
            !r,
    {
        false
    }
}

/// Transaction state field of a condition register: `0` non transactional, `1` suspended, `2`
/// transactional.
#[allow(non_snake_case)]
pub fn _HTM_STATE(CR0: i64) -> (r: i64)
    ensures
        r == (CR0 / 2) % 4,
{
    assert(((CR0 >> 1u32) & 3i64) == (CR0 / 2) % 4) by (bit_vector);
    (CR0 >> 1u32) & 3i64
}

/// Whether hardware transactional memory is available to this build. The restricted
/// transactional memory instructions are not, so every transaction takes the software path.
pub open spec fn hardware_tm_available() -> bool {
    false
}

/// Returns true if the platform supports hardware transactional memory.
pub fn htm_supported() -> (r: bool)
    ensures
        r == hardware_tm_available(),
{
    false
}

/// Error type of bounded hardware transactions.
#[derive(PartialEq, Eq, Structural, Clone, Copy, Debug, Hash)]
pub enum BoundedHtxErr {
    /// The hardware transaction requests a software fallback.
    SoftwareFallback,
    /// The hardware transaction had a conflict or explicit abort.
    AbortOrConflict,
}

/// The decision of the bounded retry handler after a failed attempt to begin: give up on an
/// explicit abort or a conflict that is not worth retrying, retry while the processor suggests it
/// and fewer than `max_failures` attempts failed, else fall back to software.
pub open spec fn bounded_decision(code: BeginCode, failure_count: u8, max_failures: u8) -> Result<
    u8,
    BoundedHtxErr,
> {
    let explicit = code.0 % 2 == 1;
    let retry = (code.0 / 2) % 2 == 1;
    let conflict = (code.0 / 4) % 2 == 1;
    if explicit || (conflict && !retry) {
        Err(BoundedHtxErr::AbortOrConflict)
    } else if retry && failure_count < max_failures {
        Ok((failure_count + 1) as u8)
    } else {
        Err(BoundedHtxErr::SoftwareFallback)
    }
}

/// The retry handler of `HardwareTx::bounded`: on `Ok` the transaction is retried with the
/// returned failure count.
pub fn bounded_retry(code: BeginCode, failure_count: u8, max_failures: u8) -> (r: Result<
    u8,
    BoundedHtxErr,
>)
    ensures
        r == bounded_decision(code, failure_count, max_failures),
{
    if code.is_explicit_abort() || code.is_conflict() && !code.is_retry() {
        Err(BoundedHtxErr::AbortOrConflict)
    } else if code.is_retry() && failure_count < max_failures {
        Ok(failure_count + 1)
    } else {
        Err(BoundedHtxErr::SoftwareFallback)
    }
}

/// Marker returned by operations that abort the running hardware transaction: control does not
/// continue inside the transaction.
#[derive(PartialEq, Eq, Structural, Clone, Copy, Debug)]
pub struct Aborted;

/// A hardware memory transaction. Only `HardwareTx::bounded` can produce one, and only on a
/// platform with hardware transactional memory.
#[derive(Debug)]
pub struct HardwareTx {
    _private: (),
}

impl HardwareTx {
    /// Starts a new hardware transaction with the bounded retry handler. Since no hardware
    /// transaction can begin on this build, the attempt falls back to software at once and
    /// leaves the failure count untouched.
    pub fn bounded(failure_count: &mut u8, max_failures: u8) -> (r: Result<Self, BoundedHtxErr>)
        ensures
            !hardware_tm_available() ==> r == Err::<Self, BoundedHtxErr>(BoundedHtxErr::SoftwareFallback),
            *final(failure_count) == *old(failure_count),
    {
        Err(BoundedHtxErr::SoftwareFallback)
    }

    /// Aborts the current transaction.
    pub fn abort(&self) -> (r: Aborted)
        ensures
            r == Aborted,
    {
        Aborted
    }
}

/// An atomic word that may also be accessed inside hardware transactions. Other threads may
/// change it at any time, so nothing is stated of the values that its loads return.
#[derive(Debug)]
pub struct HtmUsize {
    inner: AtomicUsize,
}

impl HtmUsize {
    /// Creates a new word holding `value`.
    pub fn new(value: usize) -> (r: Self) {
        HtmUsize { inner: AtomicUsize::new(value) }
    }

    /// Gets the contained value inside a hardware transaction.
    pub fn get(&self, _htx: &HardwareTx) -> usize {
        self.inner.load(Ordering::Relaxed)
    }

    /// Sets the contained value inside a hardware transaction.
    pub fn set(&self, _htx: &HardwareTx, value: usize) {
        self.inner.store(value, Ordering::Relaxed)
    }

    /// Atomically loads the contained value.
    pub fn load(&self, o: Ordering) -> usize {
        self.inner.load(o)
    }

    /// Atomically stores `value`.
    pub fn store(&self, value: usize, o: Ordering) {
        self.inner.store(value, o)
    }

    /// Atomically replaces `current` by `new`, returning the previous value on success and the
    /// observed value on failure.
    pub fn compare_exchange(
        &self,
        current: usize,
        new: usize,
        success: Ordering,
        failure: Ordering,
    ) -> Result<usize, usize> {
        self.inner.compare_exchange(current, new, success, failure)
    }

    /// Atomically adds `value` (wrapping), returning the previous value.
    pub fn fetch_add(&self, value: usize, o: Ordering) -> usize {
        self.inner.fetch_add(value, o)
    }

    /// Atomically subtracts `value` (wrapping), returning the previous value.
    pub fn fetch_sub(&self, value: usize, o: Ordering) -> usize {
        self.inner.fetch_sub(value, o)
    }

    /// Atomically ors `value` in, returning the previous value.
    pub fn fetch_or(&self, value: usize, o: Ordering) -> usize {
        self.inner.fetch_or(value, o)
    }

    /// Atomically ands `value` in, returning the previous value.
    pub fn fetch_and(&self, value: usize, o: Ordering) -> usize {
        self.inner.fetch_and(value, o)
    }
}

/// The bounded handler retries at most `max_failures` times: each retry counts one more failure,
/// never past the bound.
pub proof fn law_bounded_retries(code: BeginCode, failure_count: u8, max_failures: u8)
    ensures
        bounded_decision(code, failure_count, max_failures) matches Ok(c) ==> c == failure_count
            + 1 && c <= max_failures,
        failure_count >= max_failures ==> bounded_decision(code, failure_count, max_failures) is Err,
{
}

/// An explicit abort is never retried.
pub proof fn law_explicit_abort_gives_up(code: BeginCode, failure_count: u8, max_failures: u8)
    requires
        code.0 % 2 == 1,
    ensures
        bounded_decision(code, failure_count, max_failures) == Err::<u8, BoundedHtxErr>(
            BoundedHtxErr::AbortOrConflict,
        ),
{
}

} // verus!
