//! The three kinds of epochs used for synchronization: the `EpochClock` that holds the current
//! "time", the `EpochLock` in every transactional memory location that holds the time at which
//! the location was last written (or is locked), and the `ThreadEpoch` that holds the time a
//! thread is reading from (or the inactive sentinel). `QuiesceEpoch` is the plain value they all
//! share.
//!
//! An epoch word holds the time in its middle bits, the lock in its most significant bit and the
//! unpark bit in its least significant bit (set when no thread is parked waiting on the lock).
//! The clock starts at `FIRST` and moves in steps of `TICK_SIZE`, so clock values keep the unpark
//! bit set.
//!
//! The words are shared with other threads, so the value a load returns is not known in advance:
//! each operation hands what it observed to a pure step function, whose contract is exact.

use vstd::prelude::*;
use std::sync::atomic::Ordering;
use crate::htm::{Aborted, HardwareTx, HtmUsize};

verus! {

/// The epoch of a thread that is not pinned; greater than every other epoch.
pub const INACTIVE_EPOCH: usize = usize::MAX;

/// The most significant bit, set while an `EpochLock` is held.
pub const LOCK_BIT: usize = usize::MAX / 2 + 1;

/// The smallest difference between points on the `EpochClock`.
pub const TICK_SIZE: usize = 2;

/// The least significant bit, set when no thread is parked on an `EpochLock`.
pub const UNPARK_BIT: usize = 1;

/// The beginning of time.
pub const FIRST: usize = 3;

/// The value of `e` with the lock bit cleared.
pub open spec fn unlocked_value(e: usize) -> usize {
    if e >= LOCK_BIT {
        (e - LOCK_BIT) as usize
    } else {
        e
    }
}

/// The value of `e` with the lock bit flipped.
pub open spec fn toggled_value(e: usize) -> usize {
    if e >= LOCK_BIT {
        (e - LOCK_BIT) as usize
    } else {
        (e + LOCK_BIT) as usize
    }
}

proof fn lemma_lock_bit()
    ensures
        LOCK_BIT == ((!0usize) >> 1usize) + 1,
        LOCK_BIT > 1,
{
    let m = usize::MAX;
    assert(!0usize >= m) by (bit_vector);
    assert(((!0usize) >> 1usize) == (!0usize) / 2) by (bit_vector);
}

proof fn lemma_epoch_bits(e: usize)
    ensures
        (e & LOCK_BIT != 0) == (e >= LOCK_BIT),
        (e & !LOCK_BIT) == unlocked_value(e),
        (e ^ LOCK_BIT) == toggled_value(e),
        (e & UNPARK_BIT != 0) == (e % 2 == 1),
        (e & !UNPARK_BIT) == e - e % 2,
{
    lemma_lock_bit();
    assert((e & (((!0usize) >> 1usize) + 1) as usize != 0) == (e >= (((!0usize) >> 1usize)
        + 1) as usize)) by (bit_vector);
    assert((e & !((((!0usize) >> 1usize) + 1) as usize)) == (if e >= (((!0usize) >> 1usize)
        + 1) as usize {
        (e - (((!0usize) >> 1usize) + 1) as usize) as usize
    } else {
        e
    })) by (bit_vector);
    assert((e ^ (((!0usize) >> 1usize) + 1) as usize) == (if e >= (((!0usize) >> 1usize)
        + 1) as usize {
        (e - (((!0usize) >> 1usize) + 1) as usize) as usize
    } else {
        (e + (((!0usize) >> 1usize) + 1) as usize) as usize
    })) by (bit_vector);
    assert((e & 1usize != 0) == (e % 2 == 1)) by (bit_vector);
    assert((e & !1usize) == e - e % 2) by (bit_vector);
}

/// Returns true if the lock bit of `e` is set.
pub fn lock_bit_set(e: usize) -> (r: bool)
    ensures
        r == (e >= LOCK_BIT),
{
    proof {
        lemma_epoch_bits(e);
    }
    e & LOCK_BIT != 0
}

/// Returns `e` with the lock bit cleared.
pub fn as_unlocked(e: usize) -> (r: usize)
    ensures
        r == unlocked_value(e),
{
    proof {
        lemma_epoch_bits(e);
    }
    e & !LOCK_BIT
}

/// Returns `e` with the lock bit flipped.
pub fn toggle_lock_bit(e: usize) -> (r: usize)
    ensures
        r == toggled_value(e),
{
    proof {
        lemma_epoch_bits(e);
    }
    e ^ LOCK_BIT
}

/// Returns true if the unpark bit of `e` is set.
pub fn unpark_bit_set(e: usize) -> (r: bool)
    ensures
        r == (e % 2 == 1),
{
    proof {
        lemma_epoch_bits(e);
    }
    e & UNPARK_BIT != 0
}

/// Returns `e` with the unpark bit cleared.
pub fn clear_unpark_bit(e: usize) -> (r: usize)
    ensures
        r == e - e % 2,
{
    proof {
        lemma_epoch_bits(e);
    }
    e & !UNPARK_BIT
}

/// A point in time. Any value may be held; the meaningful ones are at least `FIRST`, and have the
/// lock bit clear unless they are `INACTIVE_EPOCH`.
#[derive(Clone, Copy, Debug, PartialEq, Eq, Structural, Hash, PartialOrd, Ord)]
pub struct QuiesceEpoch(usize);

impl View for QuiesceEpoch {
    type V = usize;

    closed spec fn view(&self) -> usize {
        self.0
    }
}

/// Whether `e` is a valid time for a `QuiesceEpoch`.
pub open spec fn valid_epoch(e: usize) -> bool {
    e >= FIRST && (e < LOCK_BIT || e == INACTIVE_EPOCH)
}

impl QuiesceEpoch {
    /// Creates a new epoch. The epoch must be at or after the beginning of time, and must not
    /// have its lock bit set unless it is the inactive epoch.
    pub fn new(epoch: usize) -> (r: Option<Self>)
        requires
            valid_epoch(epoch),
        ensures
            r matches Some(e) && e@ == epoch,
    {
        Some(QuiesceEpoch(epoch))
    }

    /// The epoch wrapping a word read from shared memory.
    fn from_raw(epoch: usize) -> (r: Self)
        ensures
            r@ == epoch,
    {
        QuiesceEpoch(epoch)
    }

    /// Returns the contained time.
    pub fn get(self) -> (r: usize)
        ensures
            r == self@,
    {
        self.0
    }

    /// The inactive epoch.
    pub closed spec fn max_value_spec() -> QuiesceEpoch {
        QuiesceEpoch(INACTIVE_EPOCH)
    }

    /// Returns the maximum value that a `QuiesceEpoch` can hold, the inactive epoch.
    pub fn max_value() -> (r: Self)
        ensures
            r@ == INACTIVE_EPOCH,
            r == Self::max_value_spec(),
    {
        QuiesceEpoch(INACTIVE_EPOCH)
    }

    /// The last epoch that is still a valid time (not locked).
    pub fn end_of_time() -> (r: Self)
        ensures
            r@ == LOCK_BIT - 1,
            r.is_active_spec(),
    {
        QuiesceEpoch(LOCK_BIT - 1)
    }

    /// Whether this is not the inactive epoch.
    pub open spec fn is_active_spec(self) -> bool {
        self@ != INACTIVE_EPOCH
    }

    /// Returns true if `self` can read from locations last written at `target`: the target comes
    /// at or before `self`.
    pub fn read_write_valid_(self, target: usize) -> (r: bool)
        ensures
            r == (target <= self@),
    {
        self.0 >= target
    }

    /// Returns true if `self` can read from locations last written at `target`.
    pub fn read_write_valid(self, target: usize) -> (r: bool)
        ensures
            r == (target <= self@),
    {
        self.read_write_valid_(target)
    }

    /// Returns true if `self` can read from the location guarded by `target`; false if it is
    /// locked. The lock word is loaded from shared memory: the result is `w <= self` for the
    /// word `w` that the load observed.
    pub fn read_write_valid_lockable(self, target: &EpochLock) -> (r: bool)
        ensures
            exists|w: usize| #[trigger] loaded_from(target, w) && r == valid_read(self, w),
    {
        let w = target.load_raw(Ordering::Relaxed);
        let r = self.read_write_valid(w);
        proof {
            assert(call_ensures(EpochLock::load_raw, (target, Ordering::Relaxed), w));
            assert(loaded_from(target, w));
            assert(r == valid_read(self, w));
        }
        r
    }

    /// Returns true if `self` is not the inactive epoch.
    pub fn is_active(self) -> (r: bool)
        ensures
            r == self.is_active_spec(),
    {
        self.0 != INACTIVE_EPOCH
    }

    /// The epoch one tick after `self`. Only meaningful for epochs returned by
    /// `EpochClock::fetch_and_tick`, whose successor is a valid time.
    pub fn next(self) -> (r: Self)
        requires
            self@ + TICK_SIZE < LOCK_BIT,
        ensures
            r@ == self@ + TICK_SIZE,
    {
        QuiesceEpoch(self.0 + TICK_SIZE)
    }
}

/// Whether any thread is parked waiting for a change to an `EpochLock`.
#[derive(Debug, PartialEq, Eq, Structural, Clone, Copy)]
pub enum ParkStatus {
    NoParked,
    HasParked,
}

/// The merge of two park statuses: parked if either is.
pub open spec fn merged(a: ParkStatus, b: ParkStatus) -> ParkStatus {
    if a == ParkStatus::HasParked || b == ParkStatus::HasParked {
        ParkStatus::HasParked
    } else {
        ParkStatus::NoParked
    }
}

impl ParkStatus {
    /// Returns `HasParked` if either status is `HasParked`.
    pub fn merge(self, rhs: ParkStatus) -> (r: ParkStatus)
        ensures
            r == merged(self, rhs),
    {
        match (self, rhs) {
            (ParkStatus::HasParked, _) => ParkStatus::HasParked,
            (_, ParkStatus::HasParked) => ParkStatus::HasParked,
            _ => ParkStatus::NoParked,
        }
    }
}

/// The park status recorded in an epoch word: nobody is parked iff the unpark bit is set.
pub open spec fn park_status_of(e: usize) -> ParkStatus {
    if e % 2 == 1 {
        ParkStatus::NoParked
    } else {
        ParkStatus::HasParked
    }
}

/// The park status recorded in `e`.
pub fn park_status(e: usize) -> (r: ParkStatus)
    ensures
        r == park_status_of(e),
{
    if unpark_bit_set(e) {
        ParkStatus::NoParked
    } else {
        ParkStatus::HasParked
    }
}

/// What locking a lock that holds `actual` does, for a transaction pinned at `max_expected`:
/// nothing if the lock was written after the pin (or is locked), else the word with the lock bit
/// set and the park status that the word records.
pub open spec fn lock_transition(actual: usize, max_expected: QuiesceEpoch) -> Option<
    (usize, ParkStatus),
> {
    if actual <= max_expected@ {
        Some((toggled_value(actual), park_status_of(actual)))
    } else {
        None
    }
}

/// The lock step on an observed word.
pub fn lock_step(actual: usize, max_expected: QuiesceEpoch) -> (r: Option<(usize, ParkStatus)>)
    ensures
        r == lock_transition(actual, max_expected),
{
    if max_expected.read_write_valid(actual) {
        Some((toggle_lock_bit(actual), park_status(actual)))
    } else {
        None
    }
}

/// What clearing the unpark bit of a lock that holds `actual` does, for a transaction pinned at
/// `max_expected`.
#[derive(Debug, PartialEq, Eq, Structural, Clone, Copy)]
pub enum UnparkStep {
    /// The lock was written after the pin: give up.
    Invalid,
    /// The unpark bit is already clear: another thread is parked.
    AlreadyParked,
    /// Replace the word by this one, which has the unpark bit clear.
    Clear(usize),
}

/// The unpark step on an observed word.
pub open spec fn unpark_transition(actual: usize, max_expected: QuiesceEpoch) -> UnparkStep {
    if actual > max_expected@ {
        UnparkStep::Invalid
    } else if actual % 2 == 0 {
        UnparkStep::AlreadyParked
    } else {
        UnparkStep::Clear((actual - 1) as usize)
    }
}

/// The unpark step on an observed word.
pub fn unpark_step(actual: usize, max_expected: QuiesceEpoch) -> (r: UnparkStep)
    ensures
        r == unpark_transition(actual, max_expected),
{
    if !max_expected.read_write_valid(actual) {
        UnparkStep::Invalid
    } else if !unpark_bit_set(actual) {
        UnparkStep::AlreadyParked
    } else {
        UnparkStep::Clear(clear_unpark_bit(actual))
    }
}

/// Whether `w` is a word that loading `lock` gave: a word observed in the lock, not one made
/// up without loading it.
pub closed spec fn loaded_from(lock: &EpochLock, w: usize) -> bool {
    exists|o: Ordering| call_ensures(EpochLock::load_raw, (lock, o), w)
}

/// Whether `observed` holds, in order, a word loaded from each of `locks`.
pub open spec fn observed_from(locks: Seq<&EpochLock>, observed: Seq<usize>) -> bool {
    &&& observed.len() == locks.len()
    &&& forall|k: int| 0 <= k < observed.len() ==> #[trigger] loaded_from(locks[k], observed[k])
}

/// Whether `step` is what an attempt to lock `lock` for a transaction pinned at `pin` gave.
pub open spec fn lock_attempted(lock: &EpochLock, pin: QuiesceEpoch, step: Option<ParkStatus>) -> bool {
    call_ensures(EpochLock::try_lock, (lock, pin), step)
}

/// Whether `step` is what an attempt to clear the unpark bit of `lock` for a transaction pinned
/// at `pin` gave.
pub open spec fn unpark_attempted(
    lock: &EpochLock,
    pin: QuiesceEpoch,
    step: Option<ParkStatus>,
) -> bool {
    call_ensures(EpochLock::try_clear_unpark_bit, (lock, pin), step)
}

/// Whether the unpark bit of `lock` was set (again) by this thread.
pub open spec fn unpark_bit_set_on(lock: &EpochLock) -> bool {
    call_ensures(EpochLock::set_unpark_bit, (lock,), ())
}

/// Whether a lock taken on `lock` was undone by this thread, giving back the word it held.
pub open spec fn undone_on(lock: &EpochLock) -> bool {
    call_ensures(EpochLock::unlock_undo, (lock,), ())
}

/// Whether `lock` was unlocked by this thread as of `epoch`.
pub open spec fn published_on(lock: &EpochLock, epoch: QuiesceEpoch) -> bool {
    call_ensures(EpochLock::unlock_publish, (lock, epoch), ())
}

/// An atomic epoch whose most significant bit is used as a lock. Transactional memory locations
/// start out at the `FIRST` epoch.
#[derive(Debug)]
pub struct EpochLock(HtmUsize);

impl EpochLock {
    /// Creates a new lock holding the `FIRST` epoch, unlocked and with nobody parked.
    pub fn first() -> (r: Self) {
        EpochLock(HtmUsize::new(FIRST))
    }

    fn load_raw(&self, o: Ordering) -> usize {
        self.0.load(o)
    }

    /// Loads the word of the lock, as a reader validating against it does.
    pub fn observe(&self) -> (r: usize)
        ensures
            loaded_from(self, r),
    {
        let r = self.load_raw(Ordering::Acquire);
        proof {
            assert(call_ensures(EpochLock::load_raw, (self, Ordering::Acquire), r));
        }
        r
    }

    /// Returns true if the lock is held in the observed word.
    pub fn is_locked(&self, o: Ordering) -> (r: bool)
    {
        lock_bit_set(self.0.load(o))
    }

    /// Attempts to lock. Fails if the lock is held, if it holds an epoch later than
    /// `max_expected`, or spuriously when another thread changed the word meanwhile. On success
    /// it returns the park status that the locked word recorded.
    pub fn try_lock(&self, max_expected: QuiesceEpoch) -> (r: Option<ParkStatus>)
        requires
            max_expected.is_active_spec(),
            max_expected@ < LOCK_BIT,
        ensures
            r matches Some(s) ==> exists|w: usize|
                #[trigger] lock_transition(w, max_expected) == Some((toggled_value(w), s)),
            exists|w: usize|
                #[trigger] loaded_from(self, w) && (r matches Some(s) ==> lock_transition(
                    w,
                    max_expected,
                ) == Some((toggled_value(w), s))) && (lock_transition(w, max_expected) is None
                    ==> r is None),
    {
        let actual = self.load_raw(Ordering::Relaxed);
        proof {
            assert(call_ensures(EpochLock::load_raw, (self, Ordering::Relaxed), actual));
            assert(loaded_from(self, actual));
        }
        match lock_step(actual, max_expected) {
            Some((locked, status)) => {
                match self.0.compare_exchange(actual, locked, Ordering::Relaxed, Ordering::Relaxed) {
                    Ok(_) => {
                        proof {
                            assert(lock_transition(actual, max_expected) == Some((toggled_value(actual), status)));
                        }
                        Some(status)
                    },
                    Err(_) => None,
                }
            },
            None => None,
        }
    }

    /// Acquires the lock inside a hardware transaction, aborting it when the lock holds an epoch
    /// later than `max_expected` or is held.
    pub fn try_lock_htm(&self, htx: &HardwareTx, max_expected: QuiesceEpoch) -> (r: Result<
        ParkStatus,
        Aborted,
    >)
        ensures
            r matches Ok(s) ==> exists|w: usize|
                #[trigger] lock_transition(w, max_expected) == Some((toggled_value(w), s)),
    {
        let actual = self.0.get(htx);
        match lock_step(actual, max_expected) {
            Some((locked, status)) => {
                self.0.set(htx, locked);
                proof {
                    assert(lock_transition(actual, max_expected) == Some((toggled_value(actual), status)));
                }
                Ok(status)
            },
            None => Err(htx.abort()),
        }
    }

    /// Unlocks the lock as of `epoch`. The caller must hold the lock; `epoch` must be active and
    /// have the lock bit clear.
    pub fn unlock_publish(&self, epoch: QuiesceEpoch)
        requires
            epoch.is_active_spec(),
            epoch@ < LOCK_BIT,
    {
        self.0.store(epoch.get(), Ordering::Release)
    }

    /// Unlocks the lock, changing no bit but the lock bit. The caller must hold the lock.
    pub fn unlock_undo(&self) {
        let prev = self.load_raw(Ordering::Relaxed);
        self.0.store(as_unlocked(prev), Ordering::Relaxed)
    }

    /// Clears the unpark bit inside a hardware transaction, aborting it when the lock holds an
    /// epoch later than `max_expected`.
    pub fn clear_unpark_bit_htm(&self, max_expected: QuiesceEpoch, htx: &HardwareTx) -> (r: Result<
        (),
        Aborted,
    >)
        ensures
            r is Ok ==> exists|w: usize| #[trigger] unpark_transition(w, max_expected) != UnparkStep::Invalid,
    {
        let actual = self.load_raw(Ordering::Relaxed);
        match unpark_step(actual, max_expected) {
            UnparkStep::Invalid => Err(htx.abort()),
            UnparkStep::AlreadyParked => {
                proof {
                    assert(unpark_transition(actual, max_expected) != UnparkStep::Invalid);
                }
                Ok(())
            },
            UnparkStep::Clear(cleared) => {
                self.0.set(htx, cleared);
                proof {
                    assert(unpark_transition(actual, max_expected) != UnparkStep::Invalid);
                }
                Ok(())
            },
        }
    }

    /// Attempts to clear the unpark bit. Returns `HasParked` if it was already clear, `NoParked`
    /// if this call cleared it, and `None` if the lock holds an epoch later than `max_expected`
    /// or another thread changed the word meanwhile.
    pub fn try_clear_unpark_bit(&self, max_expected: QuiesceEpoch) -> (r: Option<ParkStatus>)
        requires
            max_expected.is_active_spec(),
        ensures
            r == Some(ParkStatus::NoParked) ==> exists|w: usize|
                #[trigger] unpark_transition(w, max_expected) is Clear,
            r == Some(ParkStatus::HasParked) ==> exists|w: usize|
                #[trigger] unpark_transition(w, max_expected) == UnparkStep::AlreadyParked,
            exists|w: usize|
                #[trigger] loaded_from(self, w) && (r == Some(ParkStatus::NoParked)
                    ==> unpark_transition(w, max_expected) is Clear) && (r == Some(
                    ParkStatus::HasParked,
                ) <==> unpark_transition(w, max_expected) == UnparkStep::AlreadyParked) && (
                unpark_transition(w, max_expected) == UnparkStep::Invalid ==> r is None),
    {
        let actual = self.load_raw(Ordering::Relaxed);
        proof {
            assert(call_ensures(EpochLock::load_raw, (self, Ordering::Relaxed), actual));
            assert(loaded_from(self, actual));
        }
        match unpark_step(actual, max_expected) {
            UnparkStep::Invalid => None,
            UnparkStep::AlreadyParked => {
                proof {
                    assert(unpark_transition(actual, max_expected) == UnparkStep::AlreadyParked);
                }
                Some(ParkStatus::HasParked)
            },
            UnparkStep::Clear(cleared) => {
                proof {
                    assert(unpark_transition(actual, max_expected) is Clear);
                }
                match self.0.compare_exchange(actual, cleared, Ordering::Relaxed, Ordering::Relaxed) {
                    Ok(_) => Some(ParkStatus::NoParked),
                    Err(_) => None,
                }
            },
        }
    }

    /// Sets the unpark bit.
    pub fn set_unpark_bit(&self) {
        let _ = self.0.fetch_or(UNPARK_BIT, Ordering::Relaxed);
    }
}

/// Whether a transaction pinned at `pin` may read a location whose lock holds the word `w`: the
/// word is at or before the pin (a locked word never is, since pins have the lock bit clear).
pub open spec fn valid_read(pin: QuiesceEpoch, w: usize) -> bool {
    w <= pin@
}

/// Whether a thread pinned at `current` may still access data that existed before `quiesce`.
pub open spec fn quiesced_after(current: QuiesceEpoch, quiesce: QuiesceEpoch) -> bool {
    current@ > quiesce@
}

/// Whether every observed lock word is valid to read for a transaction pinned at `pin`.
pub open spec fn all_valid(pin: QuiesceEpoch, observed: Seq<usize>) -> bool {
    forall|i: int| 0 <= i < observed.len() ==> #[trigger] valid_read(pin, observed[i])
}

/// Whether every observed lock word is valid to read for a transaction pinned at `pin`.
pub fn all_valid_words(pin: QuiesceEpoch, observed: &Vec<usize>) -> (r: bool)
    ensures
        r == all_valid(pin, observed@),
{
    let mut i: usize = 0;
    while i < observed.len()
        invariant
            i <= observed@.len(),
            forall|k: int| 0 <= k < i ==> #[trigger] valid_read(pin, observed@[k]),
        decreases observed@.len() - i,
    {
        let w = observed[i];
        if !pin.read_write_valid(w) {
            assert(!valid_read(pin, w));
            return false;
        }
        i = i + 1;
    }
    true
}

/// Whether a thread observed at `current` has moved past `quiesce`.
pub fn quiesced(current: QuiesceEpoch, quiesce: QuiesceEpoch) -> (r: bool)
    ensures
        r == quiesced_after(current, quiesce),
{
    current.get() > quiesce.get()
}

/// The most recent epoch a thread may be reading from, or the inactive epoch.
#[derive(Debug)]
pub struct ThreadEpoch(HtmUsize);

impl ThreadEpoch {
    /// A thread epoch that is not pinned.
    pub fn inactive() -> (r: Self) {
        ThreadEpoch(HtmUsize::new(INACTIVE_EPOCH))
    }

    /// Returns true if the observed epoch of this thread is after `quiesce_epoch`.
    pub fn is_quiesced(&self, quiesce_epoch: QuiesceEpoch, o: Ordering) -> (r: bool)
        ensures
            exists|current: QuiesceEpoch| r == #[trigger] quiesced_after(current, quiesce_epoch),
    {
        let current = self.load_epoch(o);
        let r = quiesced(current, quiesce_epoch);
        proof {
            assert(r == quiesced_after(current, quiesce_epoch));
        }
        r
    }

    /// Gets the pinned epoch, or the inactive epoch.
    pub fn load_epoch(&self, o: Ordering) -> (r: QuiesceEpoch) {
        QuiesceEpoch::from_raw(self.0.load(o))
    }

    fn store_epoch(&self, value: QuiesceEpoch, o: Ordering) {
        self.0.store(value.get(), o)
    }

    /// Marks a thread that is collecting garbage: an epoch that counts as active but is later
    /// than every transaction's.
    pub fn set_collect_epoch(&self) {
        self.store_epoch(QuiesceEpoch::end_of_time(), Ordering::Release)
    }

    /// Pins the thread to `epoch`, which must be active and have its lock bit clear.
    pub fn pin(&self, epoch: QuiesceEpoch, o: Ordering)
        requires
            epoch.is_active_spec(),
            epoch@ < LOCK_BIT,
    {
        self.store_epoch(epoch, o)
    }

    /// Repins the thread to a later `epoch`, which must be active and have its lock bit clear.
    pub fn repin(&self, epoch: QuiesceEpoch, o: Ordering)
        requires
            epoch.is_active_spec(),
            epoch@ < LOCK_BIT,
    {
        self.store_epoch(epoch, o)
    }

    /// Unpins the thread, putting it into the inactive epoch.
    pub fn unpin(&self, o: Ordering) {
        self.store_epoch(QuiesceEpoch::max_value(), o)
    }
}

/// A monotonically increasing clock.
#[derive(Debug)]
pub struct EpochClock(HtmUsize);

impl EpochClock {
    /// A clock at the beginning of time.
    pub fn new() -> (r: EpochClock) {
        EpochClock(HtmUsize::new(FIRST))
    }

    /// Returns the current epoch, or `None` once the clock has run into the lock bit.
    pub fn now(&self) -> (r: Option<QuiesceEpoch>)
        ensures
            r matches Some(e) ==> e@ < LOCK_BIT && e.is_active_spec(),
    {
        let epoch = self.0.load(Ordering::Acquire);
        if !lock_bit_set(epoch) {
            Some(QuiesceEpoch::from_raw(epoch))
        } else {
            None
        }
    }

    /// Increments the clock by one tick, and returns the previous epoch.
    pub fn fetch_and_tick(&self) -> (r: QuiesceEpoch) {
        QuiesceEpoch::from_raw(self.0.fetch_add(TICK_SIZE, Ordering::Release))
    }
}

/// Flipping the lock bit twice gives the word back; each flip changes the lock bit and keeps the
/// time.
pub proof fn law_toggle_involutive(e: usize)
    ensures
        toggled_value(toggled_value(e)) == e,
        (toggled_value(e) >= LOCK_BIT) == !(e >= LOCK_BIT),
        unlocked_value(toggled_value(e)) == unlocked_value(e),
{
    lemma_lock_bit();
}

/// A locked epoch lock is never valid to read for a transaction pinned at an active time: reads
/// of a location being written fail.
pub proof fn law_locked_never_valid(pin: QuiesceEpoch, e: usize)
    requires
        pin.is_active_spec(),
        pin@ < LOCK_BIT,
        e >= LOCK_BIT,
    ensures
        !(e <= pin@),
{
}

/// Locking sets the lock bit and nothing else, so undoing the lock gives the word back; the lock
/// is only taken on words written at or before the pin.
pub proof fn law_lock_then_undo(actual: usize, max_expected: QuiesceEpoch)
    requires
        max_expected@ < LOCK_BIT,
        lock_transition(actual, max_expected) is Some,
    ensures
        actual <= max_expected@,
        lock_transition(actual, max_expected) matches Some((w, s)) && w >= LOCK_BIT
            && unlocked_value(w) == actual && s == park_status_of(actual),
{
    lemma_lock_bit();
}

/// Clearing the unpark bit removes exactly that bit, so setting it again gives the word back;
/// only words with the bit set and written at or before the pin are cleared.
pub proof fn law_clear_unpark_then_set(actual: usize, max_expected: QuiesceEpoch)
    requires
        unpark_transition(actual, max_expected) is Clear,
    ensures
        actual <= max_expected@,
        actual % 2 == 1,
        unpark_transition(actual, max_expected)->0 + 1 == actual,
        unpark_transition(actual, max_expected)->0 % 2 == 0,
{
}

/// Merging park statuses is commutative and associative, with `NoParked` as identity and
/// `HasParked` absorbing.
pub proof fn law_merge_park_status(a: ParkStatus, b: ParkStatus, c: ParkStatus)
    ensures
        merged(a, b) == merged(b, a),
        merged(merged(a, b), c) == merged(a, merged(b, c)),
        merged(a, ParkStatus::NoParked) == a,
        merged(a, ParkStatus::HasParked) == ParkStatus::HasParked,
{
}

/// A transaction pinned later can read whatever one pinned earlier can.
pub proof fn law_valid_monotone(a: QuiesceEpoch, b: QuiesceEpoch, target: usize)
    requires
        a@ <= b@,
        target <= a@,
    ensures
        target <= b@,
{
}

/// The inactive epoch is later than every other epoch: an inactive thread is quiesced with
/// respect to every active epoch.
pub proof fn law_inactive_quiesced(q: QuiesceEpoch)
    requires
        q.is_active_spec(),
    ensures
        quiesced_after(QuiesceEpoch::max_value_spec(), q),
{
}

/// Every time the clock shows keeps the unpark bit set: `FIRST` has it and ticks keep it, so a
/// published lock records that nobody is parked on it.
pub proof fn law_clock_times_unparked(k: nat)
    ensures
        (FIRST + k * TICK_SIZE) % 2 == 1,
        park_status_of((FIRST + k * TICK_SIZE) as usize) == ParkStatus::NoParked || FIRST + k
            * TICK_SIZE > usize::MAX,
{
}

/// The end of time is at or after every unlocked time.
pub proof fn law_end_of_time_latest(e: usize)
    requires
        e < LOCK_BIT,
    ensures
        e <= LOCK_BIT - 1,
{
}

} // verus!
