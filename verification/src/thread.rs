//! The per-thread state that runs transactions: the thread's published epoch, its backoff
//! policy, and the decisions of the retry loops.
//!
//! A retry loop runs until its transaction succeeds, so the loops themselves are driven by the
//! caller: after each attempt it hands the event to `RunCounters::rw_step` or
//! `RunCounters::read_step` and performs the returned action.

use vstd::prelude::*;
use std::sync::atomic::Ordering;
use crate::epoch::{EpochClock, QuiesceEpoch, ThreadEpoch, LOCK_BIT};
use crate::rw::CommitOutcome;
use crate::starvation::{
    epoch_after_first_failure, fresh_progress, progress_transition, BackoffAction, Progress,
    ProgressImpl,
};
use crate::tx::{Error, InternalStatus, Status};

verus! {

/// The outcome of trying to pin a thread.
#[derive(Debug, Copy, Clone, PartialEq, Eq, Structural)]
pub enum PinResult {
    /// The thread is already running a transaction.
    AlreadyPinned,
    /// The thread is now pinned at this epoch.
    Pinned(QuiesceEpoch),
    /// The clock has run into the lock bit: no transaction can start any more.
    ClockExhausted,
}

/// The state of a thread taking part in transactions.
#[derive(Debug)]
pub struct Thread {
    synch: ThreadEpoch,
    progress: Progress,
}

impl Thread {
    /// The backoff state of the thread.
    pub closed spec fn progress_spec(&self) -> ProgressImpl {
        self.progress@
    }

    /// A thread that is not pinned and has not failed.
    pub fn new() -> (r: Self)
        ensures
            r.progress_spec() == fresh_progress(),
    {
        Thread { synch: ThreadEpoch::inactive(), progress: Progress::new() }
    }

    /// The epoch the thread publishes to the other threads.
    pub closed spec fn synch_spec(&self) -> &ThreadEpoch {
        &self.synch
    }

    /// The epoch the thread publishes to the other threads.
    pub fn synch(&self) -> (r: &ThreadEpoch)
        ensures
            r == self.synch_spec(),
    {
        &self.synch
    }

    /// The backoff policy of the thread.
    pub fn progress(&self) -> (r: &Progress)
        ensures
            r@ == self.progress_spec(),
    {
        &self.progress
    }

    /// Returns whether the thread is pinned, as its published epoch reads now.
    pub fn is_pinned(&self) -> bool {
        self.synch.load_epoch(Ordering::Relaxed).is_active()
    }

    /// Pins the thread at the current time of `clock`, unless it is already pinned.
    pub fn try_pin(&self, clock: &EpochClock) -> (r: PinResult)
        ensures
            r matches PinResult::Pinned(e) ==> e.is_active_spec() && e@ < LOCK_BIT,
    {
        if self.is_pinned() {
            return PinResult::AlreadyPinned;
        }
        match clock.now() {
            Some(now) => {
                self.synch.pin(now, Ordering::Release);
                PinResult::Pinned(now)
            },
            None => PinResult::ClockExhausted,
        }
    }

    /// Moves the pin of a pinned thread to the current time of `clock`. `None` if the clock has
    /// run into the lock bit.
    pub fn repin(&self, clock: &EpochClock) -> (r: Option<QuiesceEpoch>)
        ensures
            r matches Some(e) ==> e.is_active_spec() && e@ < LOCK_BIT,
    {
        match clock.now() {
            Some(now) => {
                self.synch.repin(now, Ordering::Release);
                Some(now)
            },
            None => None,
        }
    }

    /// Records the failure of the attempt pinned at `pin_epoch`, returning the backoff to perform
    /// before the thread repins.
    pub fn failed_to_progress(&mut self, pin_epoch: QuiesceEpoch, max_elapsed: usize) -> (r:
        BackoffAction)
        requires
            epoch_after_first_failure(old(self).progress_spec(), pin_epoch),
        ensures
            (final(self).progress_spec(), r) == progress_transition(
                old(self).progress_spec(),
                pin_epoch,
                max_elapsed,
            ),
    {
        self.progress.failed_to_progress(pin_epoch, max_elapsed)
    }

    /// Makes the thread the starving one: a thread that releases the starvation lock handed it
    /// to this thread.
    pub fn become_starving(&mut self)
        ensures
            final(self).progress_spec() == ProgressImpl::Starving,
    {
        self.progress.become_starving()
    }

    /// Ends a transaction that made progress: unpins the thread and resets its backoff. Returns
    /// true if the thread was starving, and so must release the starvation lock.
    pub fn unpin_with_progress(&mut self) -> (r: bool)
        ensures
            r == (old(self).progress_spec() == ProgressImpl::Starving),
            final(self).progress_spec() == fresh_progress() || final(self).progress_spec()
                == old(self).progress_spec(),
            old(self).progress_spec() != ProgressImpl::Starving ==> final(self).progress_spec()
                matches ProgressImpl::NotStarving { .. },
    {
        self.synch.unpin(Ordering::Release);
        self.progress.progressed()
    }

    /// Records progress without unpinning. Returns true if the thread was starving.
    pub fn progressed(&mut self) -> (r: bool)
        ensures
            r == (old(self).progress_spec() == ProgressImpl::Starving),
            final(self).progress_spec() == fresh_progress() || final(self).progress_spec()
                == old(self).progress_spec(),
            old(self).progress_spec() != ProgressImpl::Starving ==> final(self).progress_spec()
                matches ProgressImpl::NotStarving { .. },
    {
        self.progress.progressed()
    }

    /// Ends a transaction whose commit already recorded its progress.
    pub fn unpin_without_progress(&self) {
        self.synch.unpin(Ordering::Release)
    }
}

/// What happened in the loop of a read write transaction.
#[derive(Debug, Copy, Clone, PartialEq, Eq, Structural)]
pub enum RwEvent {
    /// The closure returned a value: the transaction may commit.
    Returned,
    /// The closure failed with this status.
    Failed(Status),
    /// The commit ended with this outcome.
    Committed(CommitOutcome),
}

/// What the loop running a transaction does next.
#[derive(Debug, Copy, Clone, PartialEq, Eq, Structural)]
pub enum RunAction {
    /// Commit the transaction.
    Commit,
    /// The transaction is done: return its value.
    Finish,
    /// Abort the attempt, back off, repin and run the closure again.
    SnoozeRepin,
    /// Park until a location the attempt read or wrote changes, then repin and run again.
    ParkRepin,
    /// No transaction can run any more: abort the process.
    Abort,
}

/// The counts of failed attempts of the loops of one thread.
#[derive(Debug, Copy, Clone, PartialEq, Eq, Structural)]
pub struct RunCounters {
    pub read_conflicts: usize,
    pub eager_conflicts: usize,
    pub commit_conflicts: usize,
}

/// The action after `event`, in the loop of a read write transaction.
pub open spec fn rw_action(event: RwEvent) -> RunAction {
    match event {
        RwEvent::Returned => RunAction::Commit,
        RwEvent::Failed(status) => match status.kind {
            InternalStatus::Error(_) => RunAction::SnoozeRepin,
            InternalStatus::Retry => RunAction::ParkRepin,
        },
        RwEvent::Committed(outcome) => match outcome {
            CommitOutcome::ReadOnly => RunAction::Finish,
            CommitOutcome::Committed { .. } => RunAction::Finish,
            CommitOutcome::Conflict => RunAction::SnoozeRepin,
            CommitOutcome::ClockExhausted => RunAction::Abort,
        },
    }
}

impl RunCounters {
    /// No failure yet.
    pub fn new() -> (r: Self)
        ensures
            r.read_conflicts == 0,
            r.eager_conflicts == 0,
            r.commit_conflicts == 0,
    {
        RunCounters { read_conflicts: 0, eager_conflicts: 0, commit_conflicts: 0 }
    }

    /// One step of the loop of a read write transaction: an error of the closure counts as an
    /// eager conflict, a failed commit as a commit conflict.
    pub fn rw_step(&mut self, event: RwEvent) -> (r: RunAction)
        requires
            old(self).eager_conflicts < usize::MAX,
            old(self).commit_conflicts < usize::MAX,
        ensures
            r == rw_action(event),
            final(self).read_conflicts == old(self).read_conflicts,
            final(self).eager_conflicts == old(self).eager_conflicts + (if event matches RwEvent::Failed(
                Status { kind: InternalStatus::Error(_) },
            ) {
                1int
            } else {
                0int
            }),
            final(self).commit_conflicts == old(self).commit_conflicts + (if event
                == RwEvent::Committed(CommitOutcome::Conflict) {
                1int
            } else {
                0int
            }),
    {
        match event {
            RwEvent::Returned => RunAction::Commit,
            RwEvent::Failed(status) => match status.kind {
                InternalStatus::Error(_) => {
                    self.eager_conflicts = self.eager_conflicts + 1;
                    RunAction::SnoozeRepin
                },
                InternalStatus::Retry => RunAction::ParkRepin,
            },
            RwEvent::Committed(outcome) => match outcome {
                CommitOutcome::ReadOnly => RunAction::Finish,
                CommitOutcome::Committed { .. } => RunAction::Finish,
                CommitOutcome::Conflict => {
                    self.commit_conflicts = self.commit_conflicts + 1;
                    RunAction::SnoozeRepin
                },
                CommitOutcome::ClockExhausted => RunAction::Abort,
            },
        }
    }

    /// One step of the loop of a read only transaction, after its closure returned `r`: a value
    /// finishes the transaction, a conflict is counted and retried.
    pub fn read_step<O>(&mut self, r: &Result<O, Error>) -> (a: RunAction)
        requires
            old(self).read_conflicts < usize::MAX,
        ensures
            a == (if r is Ok { RunAction::Finish } else { RunAction::SnoozeRepin }),
            final(self).read_conflicts == old(self).read_conflicts + (if r is Ok {
                0int
            } else {
                1int
            }),
            final(self).eager_conflicts == old(self).eager_conflicts,
            final(self).commit_conflicts == old(self).commit_conflicts,
    {
        match r {
            Ok(_) => RunAction::Finish,
            Err(_) => {
                self.read_conflicts = self.read_conflicts + 1;
                RunAction::SnoozeRepin
            },
        }
    }
}

} // verus!
