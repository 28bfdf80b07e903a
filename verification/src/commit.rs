//! The logs of a thread and the commit protocol run over them.
//!
//! A read write transaction commits in two verified phases around the copy of its pending
//! values into memory:
//!
//! 1. `lock_for_commit`: drop from the read log the locations the write log also holds, lock
//!    every location of the write log (undoing the locks taken so far if one fails), then
//!    validate the read log (undoing every lock if that fails);
//! 2. the caller copies the pending values into the locations;
//! 3. `finish_commit`: tick the clock, unlock every written location as of the tick after, clear
//!    the logs and seal the garbage with the ticked epoch.

use vstd::prelude::*;
use crate::epoch::{
    all_valid, lock_attempted, observed_from, published_on, undone_on, unpark_attempted,
    unpark_bit_set_on, valid_read, merged, EpochClock, EpochLock, ParkStatus, QuiesceEpoch, INACTIVE_EPOCH, LOCK_BIT, TICK_SIZE,
};
use crate::gc::{ThreadGarbage, UNUSED_BAG_COUNT};
use crate::read_log::{live_cells, locks_of, ReadLog};
use crate::tcell_erased::TCellErased;
use crate::write_log::{active_dests, find_result, WriteEntryImpl, WriteLog};

verus! {

/// The transaction logs of a thread: what it read, what it will write, and its garbage.
#[derive(Debug)]
pub struct Logs<'tcell, G> {
    pub read_log: ReadLog<'tcell>,
    pub write_log: WriteLog<'tcell>,
    pub garbage: ThreadGarbage<G>,
}

/// The outcome of locking for commit.
#[derive(Debug, PartialEq, Eq, Structural, Clone, Copy)]
pub enum CommitLock {
    /// Every location of the write log is locked and the reads are valid; the park status
    /// merges those of the locked words.
    Locked(ParkStatus),
    /// A lock could not be taken or a read was invalid; no lock taken here is still held.
    Failed,
}

/// Whether the read entry `before` became `after` because the write log holds its location.
pub open spec fn dropped_for_write<'tcell>(
    before: Option<&'tcell TCellErased>,
    after: Option<&'tcell TCellErased>,
    write_log: WriteLog<'tcell>,
) -> bool {
    &&& after is None
    &&& match before {
        Some(c) => exists|j: int|
            0 <= j < write_log.entries().len() && #[trigger] write_log.entries()[j].dest_spec()
                == Some(c),
        None => false,
    }
}

/// Whether the read entry `entry`, kept in the read log, is of a location that looking up in
/// `write_log` found in no entry.
pub open spec fn kept_unwritten<'tcell>(
    entry: Option<&'tcell TCellErased>,
    write_log: WriteLog<'tcell>,
) -> bool {
    entry matches Some(c) ==> find_result(write_log, c, None)
}

/// The number of positions below `n` at which `a` and `b` differ.
pub open spec fn changed_count<A>(a: Seq<A>, b: Seq<A>, n: int) -> nat
    decreases n,
{
    if n <= 0 {
        0
    } else {
        changed_count(a, b, n - 1) + (if a[n - 1] != b[n - 1] {
            1nat
        } else {
            0nat
        })
    }
}

/// The count of differing positions below `n` only depends on the positions below `n`.
proof fn lemma_changed_count_prefix<A>(a: Seq<A>, b1: Seq<A>, b2: Seq<A>, n: int)
    requires
        forall|k: int| 0 <= k < n ==> b1[k] == b2[k],
    ensures
        changed_count(a, b1, n) == changed_count(a, b2, n),
    decreases n,
{
    if n > 0 {
        lemma_changed_count_prefix(a, b1, b2, n - 1);
    }
}

/// Whether the garbage `before` can be sealed with `sync`: the sealed bags are not full and
/// `sync` comes after the last of them.
pub open spec fn sealable<G>(before: ThreadGarbage<G>, sync: QuiesceEpoch) -> bool {
    &&& before.sealed().len() < UNUSED_BAG_COUNT
    &&& (before.sealed().len() == 0 || before.sealed().last().quiesce_epoch@ < sync@)
}

/// The garbage after a commit at `sync`: if it can be sealed, the current bag (if not empty) is
/// sealed with `sync` and `full` tells whether the sealed bags are now full; else nothing
/// changes and `full` is false.
pub open spec fn sealed_after_commit<G>(
    before: ThreadGarbage<G>,
    after: ThreadGarbage<G>,
    sync: QuiesceEpoch,
    full: bool,
) -> bool {
    if sealable(before, sync) {
        &&& after.current().len() == 0
        &&& full == (after.sealed().len() == UNUSED_BAG_COUNT)
        &&& before.current().len() == 0 ==> after.sealed() == before.sealed()
        &&& before.current().len() > 0 ==> {
            &&& after.sealed().drop_last() == before.sealed()
            &&& after.sealed().last().quiesce_epoch == sync
            &&& after.sealed().last().queued@ == before.current()
        }
    } else {
        after == before && !full
    }
}

/// Whether a commit that ticked the clock from `tick` finds it run into the lock bit: the
/// tick after would be locked.
pub open spec fn clock_exhausted(tick: QuiesceEpoch) -> bool {
    tick@ >= LOCK_BIT - TICK_SIZE
}

/// Whether `steps` are, in order and stopping after the first failure, what attempts to lock
/// `locks` for a transaction pinned at `pin` gave.
pub open spec fn lock_steps_of(
    locks: Seq<&EpochLock>,
    pin: QuiesceEpoch,
    steps: Seq<Option<ParkStatus>>,
) -> bool {
    &&& steps_until_failure(steps, locks.len())
    &&& forall|k: int| 0 <= k < steps.len() ==> #[trigger] lock_attempted(locks[k], pin, steps[k])
}

/// Whether `steps` are, in order and stopping after the first failure, what attempts to clear
/// the unpark bits of `locks` for a transaction pinned at `pin` gave.
pub open spec fn unpark_steps_of(
    locks: Seq<&EpochLock>,
    pin: QuiesceEpoch,
    steps: Seq<Option<ParkStatus>>,
) -> bool {
    &&& steps_until_failure(steps, locks.len())
    &&& forall|k: int| 0 <= k < steps.len() ==> #[trigger] unpark_attempted(locks[k], pin, steps[k])
}

/// Whether `r` is what locking for commit gives after the lock steps `steps`, for a
/// transaction pinned at `pin` whose remaining reads are of the locks `reads`: failed if a lock
/// could not be taken; else locked with the merged park status exactly when every word then
/// loaded from the read locks is valid for the pin.
pub open spec fn commit_lock_outcome(
    steps: Seq<Option<ParkStatus>>,
    reads: Seq<&EpochLock>,
    pin: QuiesceEpoch,
    r: CommitLock,
) -> bool {
    match locked_status(steps) {
        None => r == CommitLock::Failed,
        Some(status) => exists|observed: Seq<usize>|
            #[trigger] observed_from(reads, observed) && r == if all_valid(pin, observed) {
                CommitLock::Locked(status)
            } else {
                CommitLock::Failed
            },
    }
}

/// What locking for commit decides from the outcome of locking the write set and of
/// validating the reads: locked only if every lock was taken and every read is valid.
pub open spec fn commit_decision(lock: Option<ParkStatus>, reads_valid: bool) -> CommitLock {
    match lock {
        Some(status) => if reads_valid {
            CommitLock::Locked(status)
        } else {
            CommitLock::Failed
        },
        None => CommitLock::Failed,
    }
}

impl<'tcell, G> Logs<'tcell, G> {
    /// The three logs are well formed.
    pub open spec fn wf(&self) -> bool {
        &&& self.read_log.wf()
        &&& self.write_log.wf()
        &&& self.garbage.wf()
    }

    /// Empty logs.
    pub fn new() -> (r: Self)
        ensures
            r.wf(),
            r.read_log@.len() == 0,
            r.write_log.entries().len() == 0,
            r.garbage.current().len() == 0,
            r.garbage.sealed().len() == 0,
    {
        Logs { read_log: ReadLog::new(), write_log: WriteLog::new(), garbage: ThreadGarbage::new() }
    }

    /// Returns true if the logs are as a transaction must find them when it starts: no reads,
    /// no writes, no speculative garbage.
    pub fn validate_start_state(&self) -> (r: bool)
        requires
            self.wf(),
        ensures
            r == (self.read_log@.len() == 0 && self.write_log.entries().len() == 0
                && self.garbage.current().len() == 0),
    {
        self.read_log.is_empty() && self.write_log.is_empty() && self.garbage.is_speculative_bag_empty()
    }

    /// Drops from the read log every location that the write log holds, returning how many were
    /// dropped. Locking the write log would make those reads fail validation; locking validates
    /// them instead.
    pub fn remove_writes_from_reads(&mut self) -> (r: usize)
        requires
            old(self).wf(),
        ensures
            final(self).wf(),
            final(self).read_log@.len() == old(self).read_log@.len(),
            forall|i: int|
                0 <= i < old(self).read_log@.len() ==> #[trigger] final(self).read_log@[i]
                    == old(self).read_log@[i] || dropped_for_write(
                    old(self).read_log@[i],
                    final(self).read_log@[i],
                    old(self).write_log,
                ),
            final(self).write_log == old(self).write_log,
            final(self).garbage == old(self).garbage,
            r == changed_count(old(self).read_log@, final(self).read_log@, old(self).read_log@.len() as int),
            r <= old(self).read_log@.len(),
            forall|i: int|
                0 <= i < old(self).read_log@.len() ==> #[trigger] kept_unwritten(
                    final(self).read_log@[i],
                    old(self).write_log,
                ),
    {
        let n = self.read_log.len();
        let ghost old_reads = self.read_log@;
        let mut count: usize = 0;
        let mut i: usize = 0;
        while i < n
            invariant
                n == old_reads.len(),
                self.read_log.wf(),
                self.read_log@.len() == n,
                i <= n,
                count <= i,
                self.write_log == old(self).write_log,
                self.garbage == old(self).garbage,
                old_reads == old(self).read_log@,
                forall|k: int| i <= k < n ==> #[trigger] self.read_log@[k] == old_reads[k],
                forall|k: int|
                    0 <= k < i ==> #[trigger] self.read_log@[k] == old_reads[k]
                        || dropped_for_write(old_reads[k], self.read_log@[k], self.write_log),
                count == changed_count(old_reads, self.read_log@, i as int),
                forall|k: int| 0 <= k < i ==> #[trigger] kept_unwritten(self.read_log@[k], self.write_log),
            decreases n - i,
        {
            let ghost before = self.read_log@;
            match self.read_log.entry_at(i) {
                Some(cell) => {
                    match self.write_log.find(cell) {
                        Some(_) => {
                            self.read_log.forget(i);
                            count = count + 1;
                        },
                        None => {
                            proof {
                                assert(kept_unwritten(self.read_log@[i as int], self.write_log));
                            }
                        },
                    }
                },
                None => {},
            }
            proof {
                assert forall|k: int| 0 <= k < i + 1 implies #[trigger] kept_unwritten(
                    self.read_log@[k],
                    self.write_log,
                ) by {
                    if k < i {
                        assert(self.read_log@[k] == before[k]);
                    }
                }
                lemma_changed_count_prefix(old_reads, before, self.read_log@, i as int);
                assert(changed_count(old_reads, self.read_log@, i + 1) == changed_count(
                    old_reads,
                    self.read_log@,
                    i as int,
                ) + (if old_reads[i as int] != self.read_log@[i as int] {
                    1int
                } else {
                    0int
                }));
            }
            i = i + 1;
        }
        count
    }

    /// Locks every location of the write log for a transaction pinned at `pin_epoch`. If a lock
    /// cannot be taken, the locks taken before it are undone and `None` is returned; else the
    /// merged park status of the locked words, as `lock_outcome` decides from the steps. The
    /// outcome of each step depends on the shared lock words, which are not modelled here.
    pub fn lock_write_set(&self, pin_epoch: QuiesceEpoch) -> (r: Option<ParkStatus>)
        requires
            pin_epoch.is_active_spec(),
            pin_epoch@ < LOCK_BIT,
        ensures
            exists|steps: Seq<Option<ParkStatus>>|
                steps_until_failure(steps, active_dests(self.write_log.entries()).len())
                    && r == #[trigger] locked_status(steps),
            exists|steps: Seq<Option<ParkStatus>>|
                #[trigger] lock_steps_of(locks_of(active_dests(self.write_log.entries())), pin_epoch, steps)
                    && r == locked_status(steps) && (r is None ==> forall|k: int|
                    0 <= k < steps.len() && (#[trigger] steps[k]) is Some ==> undone_on(
                        locks_of(active_dests(self.write_log.entries()))[k],
                    )),
            active_dests(self.write_log.entries()).len() == 0 ==> r == Some(ParkStatus::NoParked),
    {
        let locks = self.write_log.epoch_locks();
        let n = locks.len();
        let mut steps: Vec<Option<ParkStatus>> = Vec::new();
        let mut failed = false;
        let mut i: usize = 0;
        while i < n && !failed
            invariant
                n == locks@.len(),
                i <= n,
                steps@.len() == i,
                pin_epoch.is_active_spec(),
                pin_epoch@ < LOCK_BIT,
                forall|j: int| 0 <= j < i - 1 ==> (#[trigger] steps@[j]) is Some,
                !failed ==> forall|j: int| 0 <= j < i ==> (#[trigger] steps@[j]) is Some,
                failed ==> i > 0 && steps@[i - 1] is None,
                forall|j: int| 0 <= j < i ==> #[trigger] lock_attempted(locks@[j], pin_epoch, steps@[j]),
            decreases n - i,
        {
            let step = locks[i].try_lock(pin_epoch);
            proof {
                assert(lock_attempted(locks@[i as int], pin_epoch, step));
            }
            failed = step.is_none();
            steps.push(step);
            i = i + 1;
        }
        let r = lock_outcome(&steps);
        if failed {
            unlock_prefix(&locks, i - 1);
        }
        proof {
            if r is None {
                assert(failed);
                assert forall|k: int|
                    0 <= k < steps@.len() && (#[trigger] steps@[k]) is Some implies undone_on(
                    locks@[k],
                ) by {
                    assert(k < i - 1);
                }
            }
        }
        proof {
            assert(steps_until_failure(steps@, n as nat));
            assert(lock_steps_of(locks@, pin_epoch, steps@));
            if n == 0 {
                assert(steps@ =~= Seq::<Option<ParkStatus>>::empty());
            }
        }
        r
    }

    /// Undoes every lock of the write log, after reads failed validation.
    pub fn validation_failure(&self)
        ensures
            forall|k: int|
                0 <= k < active_dests(self.write_log.entries()).len() ==> #[trigger] undone_on(
                    locks_of(active_dests(self.write_log.entries()))[k],
                ),
    {
        let entries = self.write_log.write_entries();
        let ghost dests = entries@.map_values(|e: WriteEntryImpl<'tcell>| e.dest_spec());
        let mut i: usize = 0;
        while i < entries.len()
            invariant
                i <= entries@.len(),
                entries@ == self.write_log.entries(),
                dests == entries@.map_values(|e: WriteEntryImpl<'tcell>| e.dest_spec()),
                forall|k: int|
                    0 <= k < live_cells(dests.take(i as int)).len() ==> #[trigger] undone_on(
                        locks_of(live_cells(dests.take(i as int)))[k],
                    ),
            decreases entries@.len() - i,
        {
            proof {
                assert(dests.take(i + 1).drop_last() =~= dests.take(i as int));
                assert(dests.take(i + 1).last() == dests[i as int]);
            }
            match entries[i].tcell() {
                Some(cell) => {
                    cell.current_epoch.unlock_undo();
                    proof {
                        assert(undone_on(&cell.current_epoch));
                        assert(locks_of(live_cells(dests.take(i + 1))) =~= locks_of(
                            live_cells(dests.take(i as int)),
                        ).push(&cell.current_epoch));
                    }
                },
                None => {
                    proof {
                        assert(live_cells(dests.take(i + 1)) == live_cells(dests.take(i as int)));
                    }
                },
            }
            i = i + 1;
        }
        proof {
            assert(dests.take(entries@.len() as int) =~= dests);
            assert(active_dests(self.write_log.entries()) == live_cells(dests));
        }
    }

    /// Unlocks every location of the write log as of `sync_epoch`.
    pub fn publish(&self, sync_epoch: QuiesceEpoch)
        requires
            sync_epoch.is_active_spec(),
            sync_epoch@ < LOCK_BIT,
        ensures
            forall|k: int|
                0 <= k < active_dests(self.write_log.entries()).len() ==> #[trigger] published_on(
                    locks_of(active_dests(self.write_log.entries()))[k],
                    sync_epoch,
                ),
    {
        let entries = self.write_log.write_entries();
        let ghost dests = entries@.map_values(|e: WriteEntryImpl<'tcell>| e.dest_spec());
        let mut i: usize = 0;
        while i < entries.len()
            invariant
                i <= entries@.len(),
                sync_epoch.is_active_spec(),
                sync_epoch@ < LOCK_BIT,
                entries@ == self.write_log.entries(),
                dests == entries@.map_values(|e: WriteEntryImpl<'tcell>| e.dest_spec()),
                forall|k: int|
                    0 <= k < live_cells(dests.take(i as int)).len() ==> #[trigger] published_on(
                        locks_of(live_cells(dests.take(i as int)))[k],
                        sync_epoch,
                    ),
            decreases entries@.len() - i,
        {
            proof {
                assert(dests.take(i + 1).drop_last() =~= dests.take(i as int));
                assert(dests.take(i + 1).last() == dests[i as int]);
            }
            match entries[i].tcell() {
                Some(cell) => {
                    cell.current_epoch.unlock_publish(sync_epoch);
                    proof {
                        assert(published_on(&cell.current_epoch, sync_epoch));
                        assert(locks_of(live_cells(dests.take(i + 1))) =~= locks_of(
                            live_cells(dests.take(i as int)),
                        ).push(&cell.current_epoch));
                    }
                },
                None => {
                    proof {
                        assert(live_cells(dests.take(i + 1)) == live_cells(dests.take(i as int)));
                    }
                },
            }
            i = i + 1;
        }
        proof {
            assert(dests.take(entries@.len() as int) =~= dests);
            assert(active_dests(self.write_log.entries()) == live_cells(dests));
        }
    }

    /// The commit of a transaction without writes: its reads were validated as they happened,
    /// so only the read log is cleared.
    pub fn commit_empty_write_log(&mut self)
        requires
            old(self).wf(),
        ensures
            final(self).wf(),
            final(self).read_log@.len() == 0,
            final(self).write_log == old(self).write_log,
            final(self).garbage == old(self).garbage,
    {
        self.read_log.clear()
    }

    /// Locks the write log and validates the read log for a transaction pinned at
    /// `pin_epoch`: locked only if every lock was taken and every read left (once those of
    /// written locations are dropped) is still valid, as `commit_decision` states over the
    /// outcome of each lock step and the words observed for the reads. A transaction with no
    /// live reads and no writes always locks.
    pub fn lock_for_commit(&mut self, pin_epoch: QuiesceEpoch) -> (r: CommitLock)
        requires
            old(self).wf(),
            pin_epoch.is_active_spec(),
            pin_epoch@ < LOCK_BIT,
        ensures
            final(self).wf(),
            final(self).write_log == old(self).write_log,
            final(self).garbage == old(self).garbage,
            final(self).read_log@.len() == old(self).read_log@.len(),
            forall|i: int|
                0 <= i < old(self).read_log@.len() ==> #[trigger] final(self).read_log@[i]
                    == old(self).read_log@[i] || dropped_for_write(
                    old(self).read_log@[i],
                    final(self).read_log@[i],
                    old(self).write_log,
                ),
            exists|steps: Seq<Option<ParkStatus>>, observed: Seq<usize>|
                #![trigger locked_status(steps), all_valid(pin_epoch, observed)]
                steps_until_failure(steps, active_dests(old(self).write_log.entries()).len())
                    && observed.len() == live_cells(final(self).read_log@).len() && r
                    == commit_decision(locked_status(steps), all_valid(pin_epoch, observed)),
            exists|steps: Seq<Option<ParkStatus>>|
                #[trigger] lock_steps_of(
                    locks_of(active_dests(old(self).write_log.entries())),
                    pin_epoch,
                    steps,
                ) && commit_lock_outcome(
                    steps,
                    locks_of(live_cells(final(self).read_log@)),
                    pin_epoch,
                    r,
                ) && (r == CommitLock::Failed ==> forall|k: int|
                    0 <= k < steps.len() && (#[trigger] steps[k]) is Some ==> undone_on(
                        locks_of(active_dests(old(self).write_log.entries()))[k],
                    )),
            live_cells(final(self).read_log@).len() <= live_cells(old(self).read_log@).len(),
            forall|i: int|
                0 <= i < old(self).read_log@.len() ==> #[trigger] kept_unwritten(
                    final(self).read_log@[i],
                    old(self).write_log,
                ),
            live_cells(old(self).read_log@).len() == 0 && active_dests(
                old(self).write_log.entries(),
            ).len() == 0 ==> r == CommitLock::Locked(ParkStatus::NoParked),
    {
        let ghost old_reads = self.read_log@;
        self.remove_writes_from_reads();
        proof {
            lemma_live_cells_forgotten(old_reads, self.read_log@);
        }
        let locked = self.lock_write_set(pin_epoch);
        let ghost steps = choose|steps: Seq<Option<ParkStatus>>|
            #[trigger] lock_steps_of(locks_of(active_dests(self.write_log.entries())), pin_epoch, steps)
                && locked == locked_status(steps) && (locked is None ==> forall|k: int|
                0 <= k < steps.len() && (#[trigger] steps[k]) is Some ==> undone_on(
                    locks_of(active_dests(self.write_log.entries()))[k],
                ));
        match locked {
            None => {
                proof {
                    // The reads were not validated: any words stand for them.
                    let observed = Seq::new(live_cells(self.read_log@).len(), |k: int| 0usize);
                    assert(all_valid(pin_epoch, observed) || !all_valid(pin_epoch, observed));
                    assert(CommitLock::Failed == commit_decision(
                        locked_status(steps),
                        all_valid(pin_epoch, observed),
                    ));
                }
                CommitLock::Failed
            },
            Some(status) => {
                let valid = self.read_log.validate_reads(pin_epoch);
                let ghost observed = choose|o: Seq<usize>|
                    #[trigger] observed_from(locks_of(live_cells(self.read_log@)), o) && valid
                        == all_valid(pin_epoch, o);
                proof {
                    assert(valid == all_valid(pin_epoch, observed));
                    assert(locked_status(steps) == Some(status));
                }
                if valid {
                    CommitLock::Locked(status)
                } else {
                    self.validation_failure();
                    proof {
                        assert forall|k: int|
                            0 <= k < steps.len() && (#[trigger] steps[k]) is Some implies undone_on(
                            locks_of(active_dests(self.write_log.entries()))[k],
                        ) by {
                            assert(k < active_dests(self.write_log.entries()).len());
                        }
                    }
                    CommitLock::Failed
                }
            },
        }
    }

    /// Finishes the commit after the pending values were copied: ticks `clock`, unlocks the
    /// written locations as of the tick after the previous time, clears the read and write
    /// logs and seals the garbage of the transaction with the previous time. Returns that time
    /// and whether the sealed garbage is full, so that the caller must collect; `None` if the
    /// clock has run into the lock bit, in which case nothing is unlocked. Garbage that cannot
    /// be sealed now (the sealed bags are full, or the tick is not after the last seal) stays in
    /// the current bag and is sealed by a later commit.
    pub fn finish_commit(&mut self, clock: &EpochClock) -> (r: Option<(QuiesceEpoch, bool)>)
        requires
            old(self).wf(),
        ensures
            final(self).wf(),
            r is Some ==> final(self).read_log@.len() == 0 && final(self).write_log.entries().len()
                == 0,
            r matches Some((sync, _)) ==> sync@ + TICK_SIZE < LOCK_BIT,
            r matches Some((sync, full)) ==> sealed_after_commit(
                old(self).garbage,
                final(self).garbage,
                sync,
                full,
            ),
            r is None ==> *final(self) == *old(self),
            exists|tick: QuiesceEpoch|
                (r is None) == #[trigger] clock_exhausted(tick) && (r matches Some((sync, _))
                    ==> sync == tick),
            r matches Some((sync, _)) ==> exists|next: QuiesceEpoch|
                next@ == sync@ + TICK_SIZE && forall|k: int|
                    0 <= k < active_dests(old(self).write_log.entries()).len()
                        ==> #[trigger] published_on(
                        locks_of(active_dests(old(self).write_log.entries()))[k],
                        next,
                    ),
    {
        let sync_epoch = clock.fetch_and_tick();
        assert((sync_epoch@ >= LOCK_BIT - TICK_SIZE) == clock_exhausted(sync_epoch));
        if sync_epoch.get() >= LOCK_BIT - TICK_SIZE {
            return None;
        }
        let next = sync_epoch.next();
        self.publish(next);
        self.read_log.clear();
        self.write_log.clear_no_drop();
        let mut full = false;
        let n = self.garbage.sealed_len();
        if n < UNUSED_BAG_COUNT && (n == 0 || self.garbage.latest_epoch().get() < sync_epoch.get()) {
            full = self.garbage.seal_with_epoch(sync_epoch);
        }
        Some((sync_epoch, full))
    }
}

/// Undoes the first `count` locks.
fn unlock_prefix(locks: &Vec<&EpochLock>, count: usize)
    requires
        count <= locks@.len(),
    ensures
        forall|k: int| 0 <= k < count ==> #[trigger] undone_on(locks@[k]),
{
    let mut j: usize = 0;
    while j < count
        invariant
            j <= count,
            count <= locks@.len(),
            forall|k: int| 0 <= k < j ==> #[trigger] undone_on(locks@[k]),
        decreases count - j,
    {
        locks[j].unlock_undo();
        proof {
            assert(undone_on(locks@[j as int]));
        }
        j = j + 1;
    }
}

proof fn lemma_live_cells_forgotten<'a>(
    before: Seq<Option<&'a TCellErased>>,
    after: Seq<Option<&'a TCellErased>>,
)
    requires
        before.len() == after.len(),
        forall|i: int|
            0 <= i < before.len() ==> #[trigger] after[i] == before[i] || after[i] is None,
    ensures
        live_cells(after).len() <= live_cells(before).len(),
    decreases before.len(),
{
    if before.len() > 0 {
        lemma_live_cells_forgotten(before.drop_last(), after.drop_last());
        assert forall|i: int| 0 <= i < before.drop_last().len() implies #[trigger] after.drop_last()[i]
            == before.drop_last()[i] || after.drop_last()[i] is None by {
            assert(after.drop_last()[i] == after[i]);
            assert(before.drop_last()[i] == before[i]);
        }
        if after.last() is Some {
            assert(after.last() == before.last());
        }
    }
}

/// Returns true if a transaction may park awaiting retry: it read or wrote something whose
/// change would wake it.
pub fn parkable<'tcell, G>(logs: &Logs<'tcell, G>) -> (r: bool)
    requires
        logs.wf(),
    ensures
        r == (logs.read_log@.len() > 0 || logs.write_log.entries().len() > 0),
{
    !logs.read_log.is_empty() || !logs.write_log.is_empty()
}

/// Returns true if a transaction parked with `logs` at `pin_epoch` should be woken: one of the
/// locations it read or wrote has changed since. A transaction with no live reads and no active
/// writes is never woken.
pub fn should_unpark<'tcell, G>(logs: &Logs<'tcell, G>, pin_epoch: QuiesceEpoch) -> (r: bool)
    ensures
        exists|reads: Seq<usize>, writes: Seq<usize>|
            #![trigger all_valid(pin_epoch, reads), all_valid(pin_epoch, writes)]
            reads.len() == live_cells(logs.read_log@).len() && writes.len() == active_dests(
                logs.write_log.entries(),
            ).len() && r == (!all_valid(pin_epoch, reads) || !all_valid(pin_epoch, writes)),
        exists|reads: Seq<usize>|
            #[trigger] observed_from(locks_of(live_cells(logs.read_log@)), reads) && (!all_valid(
                pin_epoch,
                reads,
            ) ==> r) && (all_valid(pin_epoch, reads) ==> exists|writes: Seq<usize>|
                #[trigger] observed_from(locks_of(active_dests(logs.write_log.entries())), writes)
                    && r == !all_valid(pin_epoch, writes)),
        live_cells(logs.read_log@).len() == 0 && active_dests(logs.write_log.entries()).len() == 0
            ==> !r,
        r ==> live_cells(logs.read_log@).len() + active_dests(logs.write_log.entries()).len() > 0,
{
    let reads_valid = logs.read_log.validate_reads(pin_epoch);
    if !reads_valid {
        // The write log is not loaded: any words stand for it.
        proof {
            let reads = choose|o: Seq<usize>|
                #[trigger] observed_from(locks_of(live_cells(logs.read_log@)), o) && reads_valid
                    == all_valid(pin_epoch, o);
            let writes = Seq::new(active_dests(logs.write_log.entries()).len(), |k: int| 0usize);
            assert(all_valid(pin_epoch, writes));
            assert(!all_valid(pin_epoch, reads));
        }
        return true;
    }
    let writes_valid = logs.write_log.validate_writes(pin_epoch);
    proof {
        let reads = choose|o: Seq<usize>|
            #[trigger] observed_from(locks_of(live_cells(logs.read_log@)), o) && reads_valid
                == all_valid(pin_epoch, o);
        let writes = choose|o: Seq<usize>|
            #[trigger] observed_from(locks_of(active_dests(logs.write_log.entries())), o)
                && writes_valid == all_valid(pin_epoch, o);
        assert(all_valid(pin_epoch, reads));
        assert(writes_valid == all_valid(pin_epoch, writes));
    }
    !writes_valid
}

/// Whether no step of an attempt failed.
pub open spec fn all_succeeded(steps: Seq<Option<ParkStatus>>) -> bool {
    forall|j: int| 0 <= j < steps.len() ==> (#[trigger] steps[j]) is Some
}

/// Which unpark bits to set again after the steps of an attempt to park: none if every bit was
/// cleared; else exactly those that the attempt cleared itself, not those that were already
/// clear because another thread is parked.
pub open spec fn bits_to_reset(steps: Seq<Option<ParkStatus>>) -> Seq<bool> {
    Seq::new(
        steps.len(),
        |j: int| !all_succeeded(steps) && steps[j] == Some(ParkStatus::NoParked),
    )
}

/// The steps of an attempt over `n` locks: one per lock in order, stopping after the first
/// that failed.
pub open spec fn steps_until_failure(steps: Seq<Option<ParkStatus>>, n: nat) -> bool {
    &&& steps.len() <= n
    &&& forall|j: int| 0 <= j < steps.len() - 1 ==> (#[trigger] steps[j]) is Some
    &&& steps.len() < n ==> steps.len() > 0 && steps.last() is None
}

/// The park statuses of the successful steps, merged; `NoParked` if there are none.
pub open spec fn merged_steps(steps: Seq<Option<ParkStatus>>) -> ParkStatus
    decreases steps.len(),
{
    if steps.len() == 0 {
        ParkStatus::NoParked
    } else {
        merged(
            merged_steps(steps.drop_last()),
            match steps.last() {
                Some(s) => s,
                None => ParkStatus::NoParked,
            },
        )
    }
}

/// What locking a write set yields from the steps: `None` if a lock could not be taken, else
/// the merged park status of the locked words.
pub open spec fn locked_status(steps: Seq<Option<ParkStatus>>) -> Option<ParkStatus> {
    if all_succeeded(steps) {
        Some(merged_steps(steps))
    } else {
        None
    }
}

/// What locking a write set decides from the outcome of each lock step.
pub fn lock_outcome(steps: &Vec<Option<ParkStatus>>) -> (r: Option<ParkStatus>)
    ensures
        r == locked_status(steps@),
{
    let mut status = ParkStatus::NoParked;
    let mut j: usize = 0;
    while j < steps.len()
        invariant
            j <= steps@.len(),
            forall|k: int| 0 <= k < j ==> (#[trigger] steps@[k]) is Some,
            status == merged_steps(steps@.take(j as int)),
        decreases steps@.len() - j,
    {
        proof {
            assert(steps@.take(j + 1).drop_last() =~= steps@.take(j as int));
        }
        match steps[j] {
            Some(s) => {
                status = status.merge(s);
            },
            None => {
                proof {
                    assert(!all_succeeded(steps@));
                }
                return None;
            },
        }
        j = j + 1;
    }
    proof {
        assert(steps@.take(j as int) =~= steps@);
    }
    Some(status)
}

/// What an attempt to park decides from the outcome of clearing each unpark bit: whether the
/// thread may park, and which bits to set again.
pub fn park_outcome(steps: &Vec<Option<ParkStatus>>) -> (r: (bool, Vec<bool>))
    ensures
        r.0 == all_succeeded(steps@),
        r.1@ == bits_to_reset(steps@),
{
    let mut ok = true;
    let mut j: usize = 0;
    while j < steps.len()
        invariant
            j <= steps@.len(),
            ok == (forall|k: int| 0 <= k < j ==> (#[trigger] steps@[k]) is Some),
        decreases steps@.len() - j,
    {
        if steps[j].is_none() {
            ok = false;
        }
        j = j + 1;
    }
    let mut mask: Vec<bool> = Vec::new();
    let mut j: usize = 0;
    while j < steps.len()
        invariant
            j <= steps@.len(),
            ok == all_succeeded(steps@),
            mask@.len() == j,
            forall|k: int| 0 <= k < j ==> mask@[k] == bits_to_reset(steps@)[k],
        decreases steps@.len() - j,
    {
        let reset = match steps[j] {
            Some(ParkStatus::NoParked) => !ok,
            _ => false,
        };
        mask.push(reset);
        j = j + 1;
    }
    proof {
        assert(mask@ =~= bits_to_reset(steps@));
    }
    (ok, mask)
}

/// Clears the unpark bit of every location read or written, announcing that a thread is parked
/// on them. If a location was changed since `pin_epoch` (or changed meanwhile), the unpark bits
/// that this call cleared are set again, as `park_outcome` decides, and false is returned. The
/// outcome of each step depends on the shared lock words; those are not modelled here, so which
/// bits were set again is not stated beyond the mask computed from the steps.
pub fn try_clear_unpark_bits<'tcell, G>(logs: &Logs<'tcell, G>, pin_epoch: QuiesceEpoch) -> (r:
    bool)
    requires
        pin_epoch.is_active_spec(),
    ensures
        exists|steps: Seq<Option<ParkStatus>>|
            steps_until_failure(
                steps,
                live_cells(logs.read_log@).len() + active_dests(logs.write_log.entries()).len(),
            ) && r == #[trigger] all_succeeded(steps),
        exists|steps: Seq<Option<ParkStatus>>|
            #[trigger] unpark_steps_of(
                locks_of(live_cells(logs.read_log@)) + locks_of(
                    active_dests(logs.write_log.entries()),
                ),
                pin_epoch,
                steps,
            ) && r == all_succeeded(steps) && forall|j: int|
                0 <= j < steps.len() && #[trigger] bits_to_reset(steps)[j] ==> unpark_bit_set_on(
                    (locks_of(live_cells(logs.read_log@)) + locks_of(
                        active_dests(logs.write_log.entries()),
                    ))[j],
                ),
        live_cells(logs.read_log@).len() == 0 && active_dests(logs.write_log.entries()).len() == 0
            ==> r,
{
    let mut locks = logs.read_log.epoch_locks();
    let mut write_locks = logs.write_log.epoch_locks();
    locks.append(&mut write_locks);
    let n = locks.len();
    assert(n == live_cells(logs.read_log@).len() + active_dests(logs.write_log.entries()).len());
    let mut steps: Vec<Option<ParkStatus>> = Vec::new();
    let mut failed = false;
    let mut i: usize = 0;
    while i < n && !failed
        invariant
            n == locks@.len(),
            i <= n,
            steps@.len() == i,
            pin_epoch.is_active_spec(),
            forall|j: int| 0 <= j < i - 1 ==> (#[trigger] steps@[j]) is Some,
            !failed ==> forall|j: int| 0 <= j < i ==> (#[trigger] steps@[j]) is Some,
            failed ==> i > 0 && steps@[i - 1] is None,
            forall|j: int|
                0 <= j < i ==> #[trigger] unpark_attempted(locks@[j], pin_epoch, steps@[j]),
        decreases n - i,
    {
        let step = locks[i].try_clear_unpark_bit(pin_epoch);
        proof {
            assert(unpark_attempted(locks@[i as int], pin_epoch, step));
        }
        failed = step.is_none();
        steps.push(step);
        i = i + 1;
    }
    let (ok, mask) = park_outcome(&steps);
    let mut j: usize = 0;
    while j < mask.len()
        invariant
            mask@.len() == steps@.len(),
            mask@ == bits_to_reset(steps@),
            steps@.len() <= n,
            n == locks@.len(),
            j <= mask@.len(),
            forall|k: int| 0 <= k < j && mask@[k] ==> #[trigger] unpark_bit_set_on(locks@[k]),
        decreases mask@.len() - j,
    {
        if mask[j] {
            locks[j].set_unpark_bit();
            proof {
                assert(unpark_bit_set_on(locks@[j as int]));
            }
        }
        j = j + 1;
    }
    proof {
        assert(steps_until_failure(steps@, n as nat));
        assert(ok == all_succeeded(steps@));
        assert(unpark_steps_of(locks@, pin_epoch, steps@));
    }
    ok
}

/// A parked transaction is woken when the word loaded from the lock of any location it read is
/// later than its pin (or locked); when every read word is valid, it is woken exactly when a
/// word loaded from the lock of a location it wrote is.
pub proof fn law_unpark_on_changed_location<'tcell, G>(
    logs: &Logs<'tcell, G>,
    pin_epoch: QuiesceEpoch,
    reads: Seq<usize>,
    writes: Seq<usize>,
    r: bool,
)
    requires
        observed_from(locks_of(live_cells(logs.read_log@)), reads),
        !all_valid(pin_epoch, reads) ==> r,
        all_valid(pin_epoch, reads) ==> observed_from(
            locks_of(active_dests(logs.write_log.entries())),
            writes,
        ) && r == !all_valid(pin_epoch, writes),
    ensures
        forall|k: int| 0 <= k < reads.len() && reads[k] > pin_epoch@ ==> r,
        (forall|k: int| 0 <= k < reads.len() ==> reads[k] <= pin_epoch@) ==> (r <==> exists|k: int|
            0 <= k < writes.len() && writes[k] > pin_epoch@),
{
    assert forall|k: int| 0 <= k < reads.len() && reads[k] > pin_epoch@ implies r by {
        assert(!valid_read(pin_epoch, reads[k]));
    }
    if forall|k: int| 0 <= k < reads.len() ==> reads[k] <= pin_epoch@ {
        assert forall|k: int| 0 <= k < reads.len() implies #[trigger] valid_read(
            pin_epoch,
            reads[k],
        ) by {}
        if r {
            assert(!all_valid(pin_epoch, writes));
            let k = choose|k: int| 0 <= k < writes.len() && !valid_read(pin_epoch, #[trigger] writes[k]);
            assert(writes[k] > pin_epoch@);
        }
        if exists|k: int| 0 <= k < writes.len() && writes[k] > pin_epoch@ {
            let k = choose|k: int| 0 <= k < writes.len() && writes[k] > pin_epoch@;
            assert(!valid_read(pin_epoch, writes[k]));
        }
    }
}

/// Locking for commit succeeds only if every lock of the write set was taken and the word
/// loaded from the lock of every remaining read is valid for the pin; when it fails, every lock
/// it took was undone.
pub proof fn law_commit_lock_needs_locks_and_valid_reads(
    locks: Seq<&EpochLock>,
    reads: Seq<&EpochLock>,
    pin_epoch: QuiesceEpoch,
    steps: Seq<Option<ParkStatus>>,
    r: CommitLock,
)
    requires
        lock_steps_of(locks, pin_epoch, steps),
        commit_lock_outcome(steps, reads, pin_epoch, r),
    ensures
        r is Locked ==> steps.len() == locks.len() && (forall|k: int|
            0 <= k < steps.len() ==> (#[trigger] steps[k]) is Some && lock_attempted(
                locks[k],
                pin_epoch,
                steps[k],
            )) && exists|observed: Seq<usize>|
            #[trigger] observed_from(reads, observed) && forall|k: int|
                0 <= k < observed.len() ==> observed[k] <= pin_epoch@,
        (exists|k: int| 0 <= k < steps.len() && (#[trigger] steps[k]) is None) ==> r
            == CommitLock::Failed,
{
    if r is Locked {
        assert(all_succeeded(steps));
        let observed = choose|observed: Seq<usize>|
            #[trigger] observed_from(reads, observed) && r == if all_valid(pin_epoch, observed) {
                CommitLock::Locked(merged_steps(steps))
            } else {
                CommitLock::Failed
            };
        assert(all_valid(pin_epoch, observed));
        assert forall|k: int| 0 <= k < observed.len() implies observed[k] <= pin_epoch@ by {
            assert(valid_read(pin_epoch, observed[k]));
        }
        if steps.len() < locks.len() {
            assert(steps.last() is None);
        }
    }
}

} // verus!
