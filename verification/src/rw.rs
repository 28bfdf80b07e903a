//! Transactions: read only transactions, which validate every read against their pinned epoch,
//! and read write transactions, which log their reads and writes and commit them with the
//! protocol of `commit`.

use vstd::prelude::*;
use std::sync::atomic::AtomicUsize;
use crate::commit::{
    clock_exhausted, commit_decision, commit_lock_outcome, dropped_for_write, kept_unwritten,
    lock_steps_of,
    locked_status, sealed_after_commit, steps_until_failure, CommitLock, Logs,
};
use crate::read_log::{live_cells, locks_of};
use crate::epoch::{
    all_valid, loaded_from, published_on, valid_read, EpochClock, ParkStatus, QuiesceEpoch, LOCK_BIT,
    TICK_SIZE,
};
use crate::tcell::{read_words, words_loaded};
use crate::tcell_erased::TCellErased;
use crate::tx::Error;
use crate::write_log::{
    active_dests, bloom_hash, find_result, total_words, written_back, Entry, WriteLog,
};

verus! {

/// How a read is validated.
#[derive(Copy, Clone, Debug, PartialEq, Eq, Structural, Hash)]
pub enum TxOrder {
    /// The value was written before the transaction started, and is validated again at commit:
    /// transactions using only these reads are serializable.
    ReadWrite,
    /// The value was written before the transaction started; it is not validated at commit.
    Read,
}

impl Default for TxOrder {
    /// The default ordering validates reads again at commit.
    fn default() -> (r: Self)
        ensures
            r == TxOrder::ReadWrite,
    {
        TxOrder::ReadWrite
    }
}

/// Transactions that can read.
pub trait Read<'tcell> {
    /// The transaction is ready to read.
    spec fn read_ready(&self) -> bool;

    /// What a successful read of `words` from the location `erased`, with `ordering`, leaves
    /// behind in the transaction, which was `before` the read.
    spec fn read_recorded(
        &self,
        before: &Self,
        erased: &'tcell TCellErased,
        ordering: TxOrder,
        words: Seq<usize>,
    ) -> bool;

    /// Whether a read of the location `erased`, whose value takes `len` words, with `ordering`
    /// succeeds, given the word observed in its lock and the entry `found` of the transaction's
    /// write log for it, if any.
    spec fn read_allowed(
        &self,
        erased: &'tcell TCellErased,
        len: nat,
        ordering: TxOrder,
        word: usize,
        found: Option<usize>,
    ) -> bool;

    /// Whether `words` are what a read of the location `erased`, whose value is held in
    /// `target`, gives to this transaction.
    spec fn read_from(
        &self,
        erased: &'tcell TCellErased,
        target: Seq<AtomicUsize>,
        words: Seq<usize>,
    ) -> bool;

    /// Reads the words of the location whose value is `target` and whose lock is `erased`.
    /// Whether it succeeds depends on the word loaded from the location's lock.
    fn borrow_words(
        &mut self,
        erased: &'tcell TCellErased,
        target: &'tcell [AtomicUsize],
        ordering: TxOrder,
    ) -> (r: Result<Vec<usize>, Error>)
        requires
            old(self).read_ready(),
        ensures
            final(self).read_ready(),
            r matches Ok(w) ==> w@.len() == target@.len() && final(self).read_recorded(
                old(self),
                erased,
                ordering,
                w@,
            ),
            exists|word: usize, found: Option<usize>|
                (r is Ok) == #[trigger] old(self).read_allowed(
                    erased,
                    target@.len(),
                    ordering,
                    word,
                    found,
                ),
            r matches Ok(w) ==> old(self).read_from(erased, target@, w@),
            exists|word: usize, found: Option<usize>|
                #![trigger loaded_from(&erased.current_epoch, word), old(self).read_allowed(erased, target@.len(), ordering, word, found)]
                loaded_from(&erased.current_epoch, word) && (r is Ok) == old(self).read_allowed(
                    erased,
                    target@.len(),
                    ordering,
                    word,
                    found,
                ),
    ;
}

/// A read only transaction pinned at an epoch.
#[derive(Debug)]
pub struct ReadTx {
    pin_epoch: QuiesceEpoch,
}

impl ReadTx {
    /// A read only transaction pinned at `pin_epoch`.
    pub fn new(pin_epoch: QuiesceEpoch) -> (r: Self)
        ensures
            r.pin_epoch_spec() == pin_epoch,
    {
        ReadTx { pin_epoch }
    }

    /// The pinned epoch.
    pub closed spec fn pin_epoch_spec(&self) -> QuiesceEpoch {
        self.pin_epoch
    }

    /// The pinned epoch.
    pub fn pin_epoch(&self) -> (r: QuiesceEpoch)
        ensures
            r == self.pin_epoch_spec(),
    {
        self.pin_epoch
    }
}

impl<'tcell> Read<'tcell> for ReadTx {
    open spec fn read_ready(&self) -> bool {
        true
    }

    /// A read only transaction reads a location if it was last written at or before the pin
    /// and is not locked.
    open spec fn read_allowed(
        &self,
        erased: &'tcell TCellErased,
        len: nat,
        ordering: TxOrder,
        word: usize,
        found: Option<usize>,
    ) -> bool {
        valid_read(self.pin_epoch_spec(), word)
    }

    /// A read only transaction reads the words of the location itself.
    open spec fn read_from(
        &self,
        erased: &'tcell TCellErased,
        target: Seq<AtomicUsize>,
        words: Seq<usize>,
    ) -> bool {
        words_loaded(target, words)
    }

    /// A read only transaction validates each read as it happens and records nothing.
    open spec fn read_recorded(
        &self,
        before: &Self,
        erased: &'tcell TCellErased,
        ordering: TxOrder,
        words: Seq<usize>,
    ) -> bool {
        *self == *before
    }

    /// Reads the words, then checks that the location was last written at or before the pin
    /// and is not locked; on a conflict the transaction must retry.
    fn borrow_words(
        &mut self,
        erased: &'tcell TCellErased,
        target: &'tcell [AtomicUsize],
        ordering: TxOrder,
    ) -> (r: Result<Vec<usize>, Error>)
        ensures
            r matches Ok(w) ==> words_loaded(target@, w@),
    {
        let value = read_words(target);
        let valid = self.pin_epoch.read_write_valid_lockable(&erased.current_epoch);
        proof {
            let word = choose|word: usize|
                #[trigger] loaded_from(&erased.current_epoch, word) && valid == valid_read(
                    self.pin_epoch,
                    word,
                );
            assert(valid == self.read_allowed(erased, target@.len(), ordering, word, None));
        }
        if valid {
            Ok(value)
        } else {
            Err(Error::conflict())
        }
    }
}

/// The outcome of committing a read write transaction.
#[derive(Debug, PartialEq, Eq, Structural, Clone, Copy)]
pub enum CommitOutcome {
    /// The transaction had no writes; nothing was published.
    ReadOnly,
    /// The writes were published after the clock ticked from `sync_epoch`. `collect` asks the
    /// caller to collect garbage; `park_status` whether threads parked on a written location
    /// must be woken.
    Committed { sync_epoch: QuiesceEpoch, collect: bool, park_status: ParkStatus },
    /// A location was locked or changed: the transaction must retry.
    Conflict,
    /// The clock has run into the lock bit; no more transactions can commit.
    ClockExhausted,
}

/// Whether `found` is an entry of `log` writing to `erased`, if it is any.
pub open spec fn found_entry<'tcell>(
    log: WriteLog<'tcell>,
    erased: &'tcell TCellErased,
    found: Option<usize>,
) -> bool {
    found matches Some(i) ==> i < log.entries().len() && log.entries()[i as int].dest_spec()
        == Some(erased)
}

/// Whether a write of `n` words fits in `log`, given the entry `found` for its location (if
/// the log holds one) and whether the location is valid for the transaction: an existing entry
/// is replaced if the word count stays within a machine word; a new entry needs a valid
/// location, room for one more entry and for its header, location and value.
pub open spec fn set_fits<'tcell>(
    log: WriteLog<'tcell>,
    found: Option<usize>,
    valid: bool,
    n: nat,
) -> bool {
    match found {
        Some(i) => total_words(log.entries()) - log.entries()[i as int].pending_spec().len() + n
            <= usize::MAX,
        None => valid && log.entries().len() < usize::MAX && total_words(log.entries()) + 2 + n
            <= usize::MAX,
    }
}

/// Whether `r` is the outcome of a commit with writes whose locking went as `lock` and which
/// ticked the clock from `tick`: a conflict if locking failed; else committed at `tick` with the
/// park status of the locked words, unless the clock has run into the lock bit.
pub open spec fn commit_matches(lock: CommitLock, tick: QuiesceEpoch, r: CommitOutcome) -> bool {
    match lock {
        CommitLock::Failed => r == CommitOutcome::Conflict,
        CommitLock::Locked(status) => if clock_exhausted(tick) {
            r == CommitOutcome::ClockExhausted
        } else {
            r matches CommitOutcome::Committed { sync_epoch, park_status, .. } && sync_epoch == tick
                && park_status == status
        },
    }
}

/// A read write transaction pinned at an epoch, with its logs.
#[derive(Debug)]
pub struct RwTx<'tcell, G> {
    logs: Logs<'tcell, G>,
    pin_epoch: QuiesceEpoch,
}

impl<'tcell, G> RwTx<'tcell, G> {
    /// The logs.
    pub closed spec fn logs_spec(&self) -> &Logs<'tcell, G> {
        &self.logs
    }

    /// The pinned epoch.
    pub closed spec fn pin_epoch_spec(&self) -> QuiesceEpoch {
        self.pin_epoch
    }

    /// The logs are well formed and the pin is an active, unlocked time.
    pub open spec fn wf(&self) -> bool {
        &&& self.logs_spec().wf()
        &&& self.pin_epoch_spec().is_active_spec()
        &&& self.pin_epoch_spec()@ < LOCK_BIT
    }

    /// The write log holds a pending write of `words` to the location `erased`.
    pub open spec fn holds_write(&self, erased: &'tcell TCellErased, words: Seq<usize>) -> bool {
        exists|i: int|
            0 <= i < self.logs_spec().write_log.entries().len()
                && #[trigger] self.logs_spec().write_log.entries()[i].dest_spec() == Some(erased)
                && self.logs_spec().write_log.entries()[i].pending_spec() == words
    }

    /// A transaction pinned at `pin_epoch` running with `logs`.
    pub fn new(logs: Logs<'tcell, G>, pin_epoch: QuiesceEpoch) -> (r: Self)
        requires
            logs.wf(),
            pin_epoch.is_active_spec(),
            pin_epoch@ < LOCK_BIT,
        ensures
            r.wf(),
            *r.logs_spec() == logs,
            r.pin_epoch_spec() == pin_epoch,
    {
        RwTx { logs, pin_epoch }
    }

    /// The pinned epoch.
    pub fn pin_epoch(&self) -> (r: QuiesceEpoch)
        ensures
            r == self.pin_epoch_spec(),
    {
        self.pin_epoch
    }

    /// The logs.
    pub fn logs(&self) -> (r: &Logs<'tcell, G>)
        ensures
            r == self.logs_spec(),
    {
        &self.logs
    }

    /// Ends the transaction, handing back its logs.
    pub fn into_logs(self) -> (r: Logs<'tcell, G>)
        ensures
            r == *self.logs_spec(),
    {
        self.logs
    }

    /// Returns true if the location is valid to read or write for this transaction.
    fn rw_valid(&self, erased: &TCellErased) -> (r: bool)
        ensures
            exists|w: usize| r == #[trigger] valid_read(self.pin_epoch_spec(), w),
            exists|w: usize|
                #[trigger] loaded_from(&erased.current_epoch, w) && r == valid_read(
                    self.pin_epoch_spec(),
                    w,
                ),
    {
        let r = self.pin_epoch.read_write_valid_lockable(&erased.current_epoch);
        proof {
            let w = choose|w: usize|
                #[trigger] loaded_from(&erased.current_epoch, w) && r == valid_read(
                    self.pin_epoch,
                    w,
                );
            assert(r == valid_read(self.pin_epoch_spec(), w));
        }
        r
    }

    /// Queues `value` as garbage, dropped once every thread moved past this transaction, if it
    /// commits.
    pub fn trash(&mut self, value: G)
        requires
            old(self).wf(),
            old(self).logs_spec().garbage.current().len() < usize::MAX,
        ensures
            final(self).wf(),
            final(self).logs_spec().garbage.current() == old(self).logs_spec().garbage.current().push(
                value,
            ),
            final(self).logs_spec().read_log == old(self).logs_spec().read_log,
            final(self).logs_spec().write_log == old(self).logs_spec().write_log,
    {
        self.logs.garbage.trash(value)
    }

    /// Logs a write of `words` to the location whose value is `target` and whose lock is
    /// `erased`. If the transaction already wrote it, the pending value is replaced; else the
    /// location must not have been written since the pin. It fails exactly when `set_fits`
    /// says no, for the entry found and the word observed in the lock; then `words` comes back
    /// and the transaction is unchanged.
    pub fn set_words(
        &mut self,
        erased: &'tcell TCellErased,
        target: &'tcell [AtomicUsize],
        words: Vec<usize>,
    ) -> (r: Result<(), Vec<usize>>)
        requires
            old(self).wf(),
        ensures
            final(self).wf(),
            final(self).pin_epoch_spec() == old(self).pin_epoch_spec(),
            final(self).logs_spec().read_log == old(self).logs_spec().read_log,
            final(self).logs_spec().garbage == old(self).logs_spec().garbage,
            r matches Err(w) ==> w@ == words@ && *final(self) == *old(self),
            r is Ok ==> final(self).holds_write(erased, words@),
            exists|found: Option<usize>, w: usize|
                #![trigger set_fits(old(self).logs_spec().write_log, found, valid_read(old(self).pin_epoch_spec(), w), words@.len())]
                found_entry(old(self).logs_spec().write_log, erased, found) && (r is Ok) == set_fits(
                    old(self).logs_spec().write_log,
                    found,
                    valid_read(old(self).pin_epoch_spec(), w),
                    words@.len(),
                ),
    {
        let ghost w = words@;
        let ghost log = self.logs.write_log;
        let ghost pinned = self.pin_epoch;
        match self.logs.write_log.entry(erased) {
            Entry::Occupied { index, hash: _ } => {
                let old_len = self.logs.write_log.write_entries()[index].pending().len();
                let total = self.logs.write_log.word_len();
                proof {
                    crate::write_log::lemma_entry_words_bound(
                        self.logs.write_log.entries(),
                        index as int,
                    );
                }
                let fits = words.len() <= usize::MAX - (total - old_len);
                proof {
                    // The location was not checked: any word stands for it.
                    assert(fits == set_fits(log, Some(index), valid_read(pinned, 0), w.len()));
                }
                if !fits {
                    return Err(words);
                }
                self.logs.write_log.update(index, words);
                proof {
                    assert(self.logs.write_log.entries()[index as int].dest_spec() == Some(erased));
                }
                Ok(())
            },
            Entry::Vacant { hash } => {
                let valid = self.rw_valid(erased);
                let ghost lw = choose|lw: usize| valid == #[trigger] valid_read(pinned, lw);
                let len = self.logs.write_log.write_entries().len();
                let total = self.logs.write_log.word_len();
                let fits = valid && len < usize::MAX && total <= usize::MAX - 2 && words.len()
                    <= usize::MAX - 2 - total;
                proof {
                    assert(fits == set_fits(log, None, valid_read(pinned, lw), w.len()));
                }
                if !fits {
                    return Err(words);
                }
                self.logs.write_log.record(erased, target, words, hash);
                proof {
                    let last = self.logs.write_log.entries().len() - 1;
                    assert(self.logs.write_log.entries()[last].dest_spec() == Some(erased));
                }
                Ok(())
            },
        }
    }

    /// Ends a failed attempt: the logs are emptied and the speculative garbage dropped.
    pub fn abort(&mut self)
        requires
            old(self).wf(),
        ensures
            final(self).wf(),
            final(self).pin_epoch_spec() == old(self).pin_epoch_spec(),
            final(self).logs_spec().read_log@.len() == 0,
            final(self).logs_spec().write_log.entries().len() == 0,
            final(self).logs_spec().garbage.current().len() == 0,
            final(self).logs_spec().garbage.sealed() == old(self).logs_spec().garbage.sealed(),
    {
        self.logs.read_log.clear();
        self.logs.garbage.abort_speculative_garbage();
        self.logs.write_log.clear();
    }

    /// Readies the transaction to park: its speculative garbage is dropped, while its reads and
    /// writes stay logged so that committing threads can tell whether to wake it.
    pub fn prepare_park(&mut self)
        requires
            old(self).wf(),
        ensures
            final(self).wf(),
            final(self).pin_epoch_spec() == old(self).pin_epoch_spec(),
            final(self).logs_spec().read_log == old(self).logs_spec().read_log,
            final(self).logs_spec().write_log == old(self).logs_spec().write_log,
            final(self).logs_spec().garbage.current().len() == 0,
            final(self).logs_spec().garbage.sealed() == old(self).logs_spec().garbage.sealed(),
    {
        self.logs.garbage.abort_speculative_garbage();
    }

    /// Ends a park: the logged reads and writes are dropped.
    pub fn finish_park(&mut self)
        requires
            old(self).wf(),
        ensures
            final(self).wf(),
            final(self).pin_epoch_spec() == old(self).pin_epoch_spec(),
            final(self).logs_spec().read_log@.len() == 0,
            final(self).logs_spec().write_log.entries().len() == 0,
            final(self).logs_spec().garbage == old(self).logs_spec().garbage,
    {
        self.logs.read_log.clear();
        self.logs.write_log.clear_no_drop();
    }

    /// Commits: locks the written locations and validates the reads, copies the pending values
    /// into the locations, then publishes them as of the tick of `clock`. On a conflict the
    /// transaction is aborted. A transaction without writes commits at once.
    pub fn commit(&mut self, clock: &EpochClock) -> (r: CommitOutcome)
        requires
            old(self).wf(),
        ensures
            final(self).wf(),
            final(self).pin_epoch_spec() == old(self).pin_epoch_spec(),
            r != CommitOutcome::ClockExhausted ==> final(self).logs_spec().read_log@.len() == 0
                && final(self).logs_spec().write_log.entries().len() == 0,
            old(self).logs_spec().write_log.entries().len() == 0 ==> r == CommitOutcome::ReadOnly,
            old(self).logs_spec().write_log.entries().len() > 0 && live_cells(
                old(self).logs_spec().read_log@,
            ).len() == 0 && active_dests(old(self).logs_spec().write_log.entries()).len() == 0
                ==> (r is Committed || r == CommitOutcome::ClockExhausted),
            r matches CommitOutcome::Committed { sync_epoch, collect, .. } ==> sealed_after_commit(
                old(self).logs_spec().garbage,
                final(self).logs_spec().garbage,
                sync_epoch,
                collect,
            ),
            r == CommitOutcome::Conflict ==> final(self).logs_spec().garbage.current().len() == 0
                && final(self).logs_spec().garbage.sealed() == old(self).logs_spec().garbage.sealed(),
            old(self).logs_spec().write_log.entries().len() > 0 ==> exists|
                steps: Seq<Option<ParkStatus>>,
                observed: Seq<usize>,
                tick: QuiesceEpoch,
            |
                steps_until_failure(
                    steps,
                    active_dests(old(self).logs_spec().write_log.entries()).len(),
                ) && observed.len() <= live_cells(old(self).logs_spec().read_log@).len()
                    && #[trigger] commit_matches(
                    commit_decision(
                        locked_status(steps),
                        all_valid(old(self).pin_epoch_spec(), observed),
                    ),
                    tick,
                    r,
                ),
            old(self).logs_spec().write_log.entries().len() > 0 ==> exists|
                steps: Seq<Option<ParkStatus>>,
                reads: Seq<Option<&'tcell TCellErased>>,
                lock: CommitLock,
                tick: QuiesceEpoch,
            |
                #![trigger commit_lock_outcome(steps, locks_of(live_cells(reads)), old(self).pin_epoch_spec(), lock), commit_matches(lock, tick, r)]
                reads.len() == old(self).logs_spec().read_log@.len() && (forall|i: int|
                    0 <= i < reads.len() ==> #[trigger] reads[i] == old(self).logs_spec().read_log@[i]
                        || dropped_for_write(
                        old(self).logs_spec().read_log@[i],
                        reads[i],
                        old(self).logs_spec().write_log,
                    )) && (forall|i: int|
                    0 <= i < reads.len() ==> #[trigger] kept_unwritten(
                        reads[i],
                        old(self).logs_spec().write_log,
                    )) && lock_steps_of(
                    locks_of(active_dests(old(self).logs_spec().write_log.entries())),
                    old(self).pin_epoch_spec(),
                    steps,
                ) && commit_lock_outcome(
                    steps,
                    locks_of(live_cells(reads)),
                    old(self).pin_epoch_spec(),
                    lock,
                ) && commit_matches(lock, tick, r),
            r is Committed ==> forall|i: int|
                0 <= i < old(self).logs_spec().write_log.entries().len() ==> #[trigger] written_back(
                    old(self).logs_spec().write_log.entries()[i],
                ),
            r matches CommitOutcome::Committed { sync_epoch, .. } ==> exists|next: QuiesceEpoch|
                next@ == sync_epoch@ + TICK_SIZE && forall|k: int|
                    0 <= k < active_dests(old(self).logs_spec().write_log.entries()).len()
                        ==> #[trigger] published_on(
                        locks_of(active_dests(old(self).logs_spec().write_log.entries()))[k],
                        next,
                    ),
    {
        if self.logs.write_log.is_empty() {
            self.logs.commit_empty_write_log();
            return CommitOutcome::ReadOnly;
        }
        let ghost pin = self.pin_epoch;
        let ghost writes = self.logs.write_log;
        let lock = self.logs.lock_for_commit(self.pin_epoch);
        let ghost (steps, observed) = choose|steps: Seq<Option<ParkStatus>>, observed: Seq<usize>|
            #![trigger locked_status(steps), all_valid(pin, observed)]
            steps_until_failure(steps, active_dests(writes.entries()).len()) && observed.len()
                == live_cells(self.logs.read_log@).len() && lock == commit_decision(
                locked_status(steps),
                all_valid(pin, observed),
            );
        let ghost reads = self.logs.read_log@;
        let ghost steps2 = choose|steps: Seq<Option<ParkStatus>>|
            #[trigger] lock_steps_of(locks_of(active_dests(writes.entries())), pin, steps)
                && commit_lock_outcome(steps, locks_of(live_cells(reads)), pin, lock);
        proof {
            assert(commit_lock_outcome(steps2, locks_of(live_cells(reads)), pin, lock));
        }
        match lock {
            CommitLock::Failed => {
                self.abort();
                proof {
                    // The clock was not ticked: any time stands for it.
                    assert(commit_matches(
                        commit_decision(locked_status(steps), all_valid(pin, observed)),
                        pin,
                        CommitOutcome::Conflict,
                    ));
                    assert(commit_matches(lock, pin, CommitOutcome::Conflict));
                }
                CommitOutcome::Conflict
            },
            CommitLock::Locked(park_status) => {
                self.logs.write_log.perform_writes();
                let finished = self.logs.finish_commit(clock);
                let ghost tick = choose|tick: QuiesceEpoch|
                    (finished is None) == #[trigger] clock_exhausted(tick) && (finished matches Some(
                        (sync, _),
                    ) ==> sync == tick);
                match finished {
                    Some((sync_epoch, collect)) => {
                        let r = CommitOutcome::Committed { sync_epoch, collect, park_status };
                        proof {
                            assert(commit_matches(
                                commit_decision(locked_status(steps), all_valid(pin, observed)),
                                tick,
                                r,
                            ));
                            assert(commit_matches(lock, tick, r));
                        }
                        r
                    },
                    None => {
                        self.logs.validation_failure();
                        proof {
                            assert(commit_matches(
                                commit_decision(locked_status(steps), all_valid(pin, observed)),
                                tick,
                                CommitOutcome::ClockExhausted,
                            ));
                            assert(commit_matches(lock, tick, CommitOutcome::ClockExhausted));
                        }
                        CommitOutcome::ClockExhausted
                    },
                }
            },
        }
    }
}

impl<'tcell, G> Read<'tcell> for RwTx<'tcell, G> {
    open spec fn read_ready(&self) -> bool {
        self.wf()
    }

    /// A read write transaction reads a location if it was last written at or before the pin
    /// and is not locked; then its own pending value if it wrote the location, which must have
    /// the length of the location's value; else the location itself, which with `ReadWrite`
    /// ordering needs room in the read log.
    open spec fn read_allowed(
        &self,
        erased: &'tcell TCellErased,
        len: nat,
        ordering: TxOrder,
        word: usize,
        found: Option<usize>,
    ) -> bool {
        &&& valid_read(self.pin_epoch_spec(), word)
        &&& found_entry(self.logs_spec().write_log, erased, found)
        &&& find_result(self.logs_spec().write_log, erased, found)
        &&& match found {
            Some(i) => self.logs_spec().write_log.entries()[i as int].pending_spec().len() == len,
            None => ordering == TxOrder::ReadWrite ==> self.logs_spec().read_log@.len()
                < usize::MAX,
        }
    }

    /// A read write transaction reads its own pending value of the location if looking it up
    /// in the write log found an entry, else the words of the location itself.
    open spec fn read_from(
        &self,
        erased: &'tcell TCellErased,
        target: Seq<AtomicUsize>,
        words: Seq<usize>,
    ) -> bool {
        exists|found: Option<usize>|
            #[trigger] find_result(self.logs_spec().write_log, erased, found) && match found {
                Some(i) => i < self.logs_spec().write_log.entries().len() && words
                    == self.logs_spec().write_log.entries()[i as int].pending_spec(),
                None => words_loaded(target, words),
            }
    }

    /// A read either gave back the transaction's own pending write of the location, or read
    /// the location itself; such a read with `ReadWrite` ordering is logged, to be validated
    /// again at commit.
    open spec fn read_recorded(
        &self,
        before: &Self,
        erased: &'tcell TCellErased,
        ordering: TxOrder,
        words: Seq<usize>,
    ) -> bool {
        before.holds_write(erased, words) || (ordering == TxOrder::ReadWrite
            ==> self.logs_spec().read_log@ == before.logs_spec().read_log@.push(Some(erased)))
    }

    /// Reads the words: the pending value if the transaction wrote the location, else the
    /// location itself, which must not have been written since the pin. A read of the location
    /// itself with `ReadWrite` ordering is logged, to be validated again at commit.
    fn borrow_words(
        &mut self,
        erased: &'tcell TCellErased,
        target: &'tcell [AtomicUsize],
        ordering: TxOrder,
    ) -> (r: Result<Vec<usize>, Error>)
        ensures
            r matches Ok(w) ==> exists|found: Option<usize>|
                #[trigger] find_result(old(self).logs_spec().write_log, erased, found) && match found {
                    Some(i) => i < old(self).logs_spec().write_log.entries().len() && w@ == old(
                        self,
                    ).logs_spec().write_log.entries()[i as int].pending_spec(),
                    None => words_loaded(target@, w@),
                },
            final(self).pin_epoch_spec() == old(self).pin_epoch_spec(),
            final(self).logs_spec().write_log == old(self).logs_spec().write_log,
            final(self).logs_spec().garbage == old(self).logs_spec().garbage,
            final(self).logs_spec().read_log@ == old(self).logs_spec().read_log@
                || final(self).logs_spec().read_log@ == old(self).logs_spec().read_log@.push(
                Some(erased),
            ),
            final(self).logs_spec().read_log@ != old(self).logs_spec().read_log@ ==> r is Ok
                && ordering == TxOrder::ReadWrite,
            r matches Ok(w) ==> old(self).holds_write(erased, w@) || (ordering
                == TxOrder::ReadWrite ==> final(self).logs_spec().read_log@ == old(
                self,
            ).logs_spec().read_log@.push(Some(erased))),
    {
        let ghost before = *self;
        let found = self.logs.write_log.find(erased);
        match found {
            Some(index) => {
                let pending = self.logs.write_log.write_entries()[index].pending();
                let valid = self.rw_valid(erased);
                let ghost word = choose|word: usize|
                    #[trigger] loaded_from(&erased.current_epoch, word) && valid == valid_read(
                        self.pin_epoch_spec(),
                        word,
                    );
                let ok = valid && pending.len() == target.len();
                proof {
                    assert(ok == before.read_allowed(erased, target@.len(), ordering, word, found));
                }
                if ok {
                    let words = slice_to_vec(pending);
                    proof {
                        assert(self.logs.write_log.entries()[index as int].dest_spec() == Some(
                            erased,
                        ));
                    }
                    Ok(words)
                } else {
                    Err(Error::conflict())
                }
            },
            None => {
                let value = read_words(target);
                let valid = self.rw_valid(erased);
                let ghost word = choose|word: usize|
                    #[trigger] loaded_from(&erased.current_epoch, word) && valid == valid_read(
                        self.pin_epoch_spec(),
                        word,
                    );
                let room = ordering != TxOrder::ReadWrite || self.logs.read_log.len() < usize::MAX;
                proof {
                    assert((valid && room) == before.read_allowed(
                        erased,
                        target@.len(),
                        ordering,
                        word,
                        found,
                    ));
                }
                if !valid {
                    return Err(Error::conflict());
                }
                if ordering == TxOrder::ReadWrite {
                    if self.logs.read_log.len() == usize::MAX {
                        // The read could not be validated at commit.
                        return Err(Error::conflict());
                    }
                    self.logs.read_log.record(erased);
                }
                Ok(value)
            },
        }
    }
}

/// A copy of `s`.
fn slice_to_vec(s: &[usize]) -> (r: Vec<usize>)
    ensures
        r@ == s@,
{
    let mut v: Vec<usize> = Vec::new();
    let mut i: usize = 0;
    while i < s.len()
        invariant
            i <= s@.len(),
            v@ == s@.subrange(0, i as int),
        decreases s@.len() - i,
    {
        v.push(s[i]);
        proof {
            assert(v@ =~= s@.subrange(0, i + 1));
        }
        i = i + 1;
    }
    proof {
        assert(s@.subrange(0, s@.len() as int) =~= s@);
    }
    v
}

/// A read of a location by a read write transaction succeeds only if the word loaded from the
/// location's lock is at or before the pin, whatever the ordering and whether the transaction
/// wrote the location; an entry it reads its own pending value from is the one the write log
/// lookup found.
pub proof fn law_rw_read_checks_the_lock<'tcell, G>(
    tx: &RwTx<'tcell, G>,
    erased: &'tcell TCellErased,
    len: nat,
    ordering: TxOrder,
    word: usize,
    found: Option<usize>,
)
    ensures
        tx.read_allowed(erased, len, ordering, word, found) ==> word <= tx.pin_epoch_spec()@
            && find_result(tx.logs_spec().write_log, erased, found),
        word > tx.pin_epoch_spec()@ ==> !tx.read_allowed(erased, len, ordering, word, found),
{
}

/// A read of a location by a read only transaction succeeds exactly when the word loaded from
/// the location's lock is at or before the pin.
pub proof fn law_read_only_checks_the_lock<'tcell>(
    tx: &ReadTx,
    erased: &'tcell TCellErased,
    len: nat,
    ordering: TxOrder,
    word: usize,
    found: Option<usize>,
)
    ensures
        tx.read_allowed(erased, len, ordering, word, found) <==> word <= tx.pin_epoch_spec()@,
{
}

} // verus!
