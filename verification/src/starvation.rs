//! The backoff policy of threads whose transactions fail, and the starvation lock that a thread
//! takes when it failed for too long, blocking the others until it makes progress.
//!
//! Everything here only decides; the spinning, yielding and parking is done by the caller, which
//! performs the returned action.

use vstd::prelude::*;
use std::sync::atomic::AtomicU8;
use std::sync::atomic::AtomicUsize;
use std::sync::atomic::Ordering;
use crate::epoch::{QuiesceEpoch, TICK_SIZE};

verus! {

/// How many ticks of room each registered thread adds to the maximum elapsed epochs.
pub const EPOCH_BUFFER_ROOM: usize = 2;

/// The unpark token handed to parked threads when no thread is starving.
pub const NO_STARVERS: usize = 0;

/// Failed attempts after which spinning gives way to yielding.
pub const SPIN_LIMIT: u32 = 6;

/// Failed attempts after which the thread declares itself starving.
pub const YIELD_LIMIT: u32 = 10;

/// Starvation state bit: a thread is starving.
pub const LOCKED_BIT: u8 = 1;

/// Starvation state bit: threads are parked waiting for the starving thread.
pub const PARKED_BIT: u8 = 2;

/// Registers a thread: transactions may now take two more ticks before counting as long.
pub fn inc_thread_estimate(max_elapsed_epochs: &AtomicUsize) {
    let _ = max_elapsed_epochs.fetch_add(TICK_SIZE * EPOCH_BUFFER_ROOM, Ordering::Relaxed);
}

/// Unregisters a thread.
pub fn dec_thread_estimate(max_elapsed_epochs: &AtomicUsize) {
    let _ = max_elapsed_epochs.fetch_sub(TICK_SIZE * EPOCH_BUFFER_ROOM, Ordering::Relaxed);
}

/// The number of epochs after which a failing transaction counts as long.
pub fn max_elapsed_epochs(max_elapsed_epochs: &AtomicUsize) -> usize {
    max_elapsed_epochs.load(Ordering::Relaxed)
}

/// The backoff state of a thread.
#[derive(Debug, Copy, Clone, PartialEq, Eq, Structural)]
pub enum ProgressImpl {
    /// The thread has failed `backoff` times since it first failed at `first_failed_epoch`.
    NotStarving { first_failed_epoch: Option<QuiesceEpoch>, backoff: u32 },
    /// The thread holds the starvation lock.
    Starving,
}

/// What a thread does after failing a transaction.
#[derive(Debug, Copy, Clone, PartialEq, Eq, Structural)]
pub enum BackoffAction {
    /// Spin for this many iterations.
    Spin { iterations: u32 },
    /// Yield the processor.
    Yield,
    /// Yield the processor, then take the starvation lock.
    StarveLock,
}

/// The initial backoff state.
pub open spec fn fresh_progress() -> ProgressImpl {
    ProgressImpl::NotStarving { first_failed_epoch: None, backoff: 0 }
}

/// The backoff state and action after a failure at `epoch`, when transactions that take
/// `max_elapsed` epochs count as long.
pub open spec fn progress_transition(state: ProgressImpl, epoch: QuiesceEpoch, max_elapsed: usize) -> (
    ProgressImpl,
    BackoffAction,
) {
    match state {
        ProgressImpl::NotStarving { first_failed_epoch, backoff } => {
            if backoff <= YIELD_LIMIT {
                let first = match first_failed_epoch {
                    Some(f) => f,
                    None => epoch,
                };
                if backoff <= SPIN_LIMIT {
                    if epoch@ - first@ >= max_elapsed {
                        (
                            ProgressImpl::NotStarving {
                                first_failed_epoch: Some(first),
                                backoff: (SPIN_LIMIT + 1) as u32,
                            },
                            BackoffAction::Yield,
                        )
                    } else {
                        (
                            ProgressImpl::NotStarving {
                                first_failed_epoch: Some(first),
                                backoff: (backoff + 1) as u32,
                            },
                            BackoffAction::Spin { iterations: (1u32 << backoff) as u32 },
                        )
                    }
                } else {
                    (
                        ProgressImpl::NotStarving {
                            first_failed_epoch: Some(first),
                            backoff: (backoff + 1) as u32,
                        },
                        BackoffAction::Yield,
                    )
                }
            } else {
                (ProgressImpl::Starving, BackoffAction::StarveLock)
            }
        },
        ProgressImpl::Starving => (ProgressImpl::Starving, BackoffAction::Yield),
    }
}

/// Whether `epoch` is not before the first failure recorded in `state`.
pub open spec fn epoch_after_first_failure(state: ProgressImpl, epoch: QuiesceEpoch) -> bool {
    state matches ProgressImpl::NotStarving { first_failed_epoch: Some(f), .. } ==> f@ <= epoch@
}

impl ProgressImpl {
    /// A thread that has not failed.
    pub fn new() -> (r: Self)
        ensures
            r == fresh_progress(),
    {
        ProgressImpl::NotStarving { first_failed_epoch: None, backoff: 0 }
    }

    /// Whether a parked thread should take over the starvation lock: it has backed off to the
    /// yield limit, or its transaction has been failing for `max_elapsed` epochs as of `now`.
    pub fn should_upgrade(&self, now: QuiesceEpoch, max_elapsed: usize) -> (r: bool)
        requires
            *self != ProgressImpl::Starving,
            epoch_after_first_failure(*self, now),
        ensures
            r == (match *self {
                ProgressImpl::NotStarving { first_failed_epoch: Some(e), backoff } => backoff
                    >= YIELD_LIMIT || now@ - e@ >= max_elapsed,
                _ => false,
            }),
    {
        match self {
            ProgressImpl::NotStarving { first_failed_epoch: Some(epoch), backoff } => {
                if *backoff >= YIELD_LIMIT {
                    return true;
                }
                now.get() - epoch.get() >= max_elapsed
            },
            _ => false,
        }
    }
}

/// The backoff policy of a thread.
#[derive(Debug)]
pub struct Progress {
    inner: ProgressImpl,
}

impl View for Progress {
    type V = ProgressImpl;

    closed spec fn view(&self) -> ProgressImpl {
        self.inner
    }
}

impl Progress {
    /// A thread that has not failed.
    pub fn new() -> (r: Self)
        ensures
            r@ == fresh_progress(),
    {
        Progress { inner: ProgressImpl::new() }
    }

    /// Records a failure of a transaction pinned at `epoch`, returning the backoff to perform.
    pub fn failed_to_progress(&mut self, epoch: QuiesceEpoch, max_elapsed: usize) -> (r:
        BackoffAction)
        requires
            epoch_after_first_failure(old(self)@, epoch),
        ensures
            (final(self)@, r) == progress_transition(old(self)@, epoch, max_elapsed),
    {
        match self.inner {
            ProgressImpl::NotStarving { first_failed_epoch, backoff } => {
                if backoff <= YIELD_LIMIT {
                    let first = match first_failed_epoch {
                        Some(f) => f,
                        None => epoch,
                    };
                    if backoff <= SPIN_LIMIT {
                        if epoch.get() - first.get() >= max_elapsed {
                            self.inner = ProgressImpl::NotStarving {
                                first_failed_epoch: Some(first),
                                backoff: SPIN_LIMIT + 1,
                            };
                            return BackoffAction::Yield;
                        }
                        self.inner = ProgressImpl::NotStarving {
                            first_failed_epoch: Some(first),
                            backoff: backoff + 1,
                        };
                        BackoffAction::Spin { iterations: 1u32 << backoff }
                    } else {
                        self.inner = ProgressImpl::NotStarving {
                            first_failed_epoch: Some(first),
                            backoff: backoff + 1,
                        };
                        BackoffAction::Yield
                    }
                } else {
                    self.inner = ProgressImpl::Starving;
                    BackoffAction::StarveLock
                }
            },
            ProgressImpl::Starving => BackoffAction::Yield,
        }
    }

    /// The backoff state.
    pub fn state(&self) -> (r: ProgressImpl)
        ensures
            r == self@,
    {
        self.inner
    }

    /// Takes over the starvation lock handed over by the thread that released it.
    pub fn become_starving(&mut self)
        ensures
            final(self)@ == ProgressImpl::Starving,
    {
        self.inner = ProgressImpl::Starving;
    }

    /// Whether the thread must wait for starving threads before publishing its progress: every
    /// thread but the starving one.
    pub fn wait_for_starvers(&self) -> (r: bool)
        ensures
            r == (self@ != ProgressImpl::Starving),
    {
        match self.inner {
            ProgressImpl::NotStarving { .. } => true,
            ProgressImpl::Starving => false,
        }
    }

    /// Records progress, resetting the backoff. Returns true if the thread was starving, and so
    /// must release the starvation lock.
    pub fn progressed(&mut self) -> (r: bool)
        ensures
            r == (old(self)@ == ProgressImpl::Starving),
            old(self)@ matches ProgressImpl::NotStarving { first_failed_epoch: None, .. }
                ==> final(self)@ == old(self)@,
            !(old(self)@ matches ProgressImpl::NotStarving { first_failed_epoch: None, .. })
                ==> final(self)@ == fresh_progress(),
    {
        match self.inner {
            ProgressImpl::NotStarving { first_failed_epoch: None, .. } => return false,
            _ => {},
        }
        self.progressed_slow()
    }

    fn progressed_slow(&mut self) -> (r: bool)
        ensures
            r == (old(self)@ == ProgressImpl::Starving),
            final(self)@ == fresh_progress(),
    {
        let starving = match self.inner {
            ProgressImpl::NotStarving { .. } => false,
            ProgressImpl::Starving => true,
        };
        self.inner = ProgressImpl::new();
        starving
    }
}

/// What a thread does next while taking (or waiting out) the starvation lock, given the observed
/// state.
#[derive(Debug, Copy, Clone, PartialEq, Eq, Structural)]
pub enum StarveStep {
    /// Nobody starves: try to replace state `0` (by `LOCKED_BIT` when taking the lock).
    Acquire,
    /// Try to replace the observed state by this one, which has the parked bit set.
    SetParked(u8),
    /// Park until woken.
    Park,
}

/// Whether the parked bit of `state` is set.
pub open spec fn parked_bit_set(state: u8) -> bool {
    (state / 2) % 2 == 1
}

/// The step of a thread that wants the starvation lock, or waits for it to be released.
pub open spec fn starve_transition(state: u8) -> StarveStep {
    if state == 0 {
        StarveStep::Acquire
    } else if !parked_bit_set(state) {
        StarveStep::SetParked((state + PARKED_BIT) as u8)
    } else {
        StarveStep::Park
    }
}

/// The step of a thread that wants the starvation lock, or waits for it to be released.
pub fn starve_step(state: u8) -> (r: StarveStep)
    ensures
        r == starve_transition(state),
{
    assert((state & 2u8 == 0) == ((state / 2) % 2 == 0)) by (bit_vector);
    assert((state & 2u8 == 0) ==> (state | 2u8) == state + 2) by (bit_vector);
    if state == 0 {
        StarveStep::Acquire
    } else if state & PARKED_BIT == 0 {
        StarveStep::SetParked(state | PARKED_BIT)
    } else {
        StarveStep::Park
    }
}

/// What a thread waiting for starvers does once woken.
#[derive(Debug, PartialEq, Eq, Structural, Clone, Copy)]
pub enum WaitWake {
    /// No thread starves any more: stop waiting.
    NoStarvers,
    /// The starvation lock was handed to this thread: it is now the starving one.
    HandedOver,
    /// Woken for another thread, or not woken at all: wait again.
    Again,
}

/// What a waiting thread whose token is `own` does after parking, woken with the token `woken`
/// (`None` if it was not woken).
pub open spec fn wait_wake_transition(woken: Option<usize>, own: usize) -> WaitWake {
    match woken {
        Some(t) => if t == NO_STARVERS {
            WaitWake::NoStarvers
        } else if t == own {
            WaitWake::HandedOver
        } else {
            WaitWake::Again
        },
        None => WaitWake::Again,
    }
}

/// Decides what a waiting thread whose token is `own` does after parking.
pub fn wait_wake_step(woken: Option<usize>, own: usize) -> (r: WaitWake)
    ensures
        r == wait_wake_transition(woken, own),
{
    match woken {
        Some(t) => if t == NO_STARVERS {
            WaitWake::NoStarvers
        } else if t == own {
            WaitWake::HandedOver
        } else {
            WaitWake::Again
        },
        None => WaitWake::Again,
    }
}

/// What to do with a parked thread while releasing the starvation lock.
#[derive(Debug, Copy, Clone, PartialEq, Eq, Structural)]
pub enum FilterOp {
    /// Wake it.
    Unpark,
    /// Stop waking threads.
    Stop,
}

/// Visiting a parked thread while releasing the starvation lock: until a thread that should
/// take over is found, every thread is woken; the first one that should is the next starver,
/// and then the visit stops. Returns the operation and whether a next starver is now known.
pub fn starve_filter(found: bool, should_upgrade: bool) -> (r: (FilterOp, bool))
    ensures
        r == (if !found {
            (FilterOp::Unpark, should_upgrade)
        } else {
            (FilterOp::Stop, true)
        }),
{
    if !found {
        (FilterOp::Unpark, should_upgrade)
    } else {
        (FilterOp::Stop, true)
    }
}

/// The starvation state after releasing the lock, once no thread remains parked: locked again
/// if it was handed to a next starver.
pub fn starve_unlock_next_state(next_starved: bool) -> (r: u8)
    ensures
        r == (if next_starved { LOCKED_BIT } else { 0 }),
{
    if next_starved {
        LOCKED_BIT
    } else {
        0
    }
}

/// The global starvation lock.
#[derive(Debug)]
pub struct Starvation {
    state: AtomicU8,
}

impl Starvation {
    /// Nobody starving.
    pub fn new() -> (r: Self) {
        Starvation { state: AtomicU8::new(0) }
    }

    /// Tries to take the starvation lock at once; on `false` the caller takes the slow path,
    /// stepping with `starve_step`.
    pub fn starve_lock(&self) -> bool {
        self.state.compare_exchange_weak(0, LOCKED_BIT, Ordering::Relaxed, Ordering::Relaxed).is_ok()
    }

    /// Tries to release the starvation lock at once, when nobody is parked; on `false` the
    /// caller takes the slow path.
    pub fn starve_unlock(&self) -> bool {
        self.state.compare_exchange(LOCKED_BIT, 0, Ordering::Relaxed, Ordering::Relaxed).is_ok()
    }

    /// Returns true if some thread starves, so the caller must wait, stepping with
    /// `starve_step`.
    pub fn wait_for_starvers(&self) -> bool {
        self.state.load(Ordering::Relaxed) != 0
    }

    /// The observed state.
    pub fn state(&self) -> u8 {
        self.state.load(Ordering::Relaxed)
    }

    /// Replaces `current` by `new`, returning the observed state on failure.
    pub fn compare_exchange_weak(&self, current: u8, new: u8) -> Result<u8, u8> {
        self.state.compare_exchange_weak(current, new, Ordering::Relaxed, Ordering::Relaxed)
    }

    /// Sets the state.
    pub fn store(&self, state: u8) {
        self.state.store(state, Ordering::Relaxed)
    }
}

/// Every failure of a thread that is not starving increases its backoff, and a thread whose
/// backoff passed the yield limit starves at its next failure, taking the starvation lock: a
/// thread that keeps failing starves after a bounded number of failures.
pub proof fn law_failures_lead_to_starving(
    first_failed_epoch: Option<QuiesceEpoch>,
    backoff: u32,
    epoch: QuiesceEpoch,
    max_elapsed: usize,
)
    ensures
        backoff > YIELD_LIMIT ==> progress_transition(
            ProgressImpl::NotStarving { first_failed_epoch, backoff },
            epoch,
            max_elapsed,
        ) == (ProgressImpl::Starving, BackoffAction::StarveLock),
        backoff <= YIELD_LIMIT ==> (progress_transition(
            ProgressImpl::NotStarving { first_failed_epoch, backoff },
            epoch,
            max_elapsed,
        ).0 matches ProgressImpl::NotStarving { backoff: b2, first_failed_epoch: Some(_) } && b2
            > backoff && b2 <= YIELD_LIMIT + 1),
{
}

/// A starving thread stays starving whatever else fails, until it progresses.
pub proof fn law_starving_stays(epoch: QuiesceEpoch, max_elapsed: usize)
    ensures
        progress_transition(ProgressImpl::Starving, epoch, max_elapsed) == (
            ProgressImpl::Starving,
            BackoffAction::Yield,
        ),
{
}

} // verus!
