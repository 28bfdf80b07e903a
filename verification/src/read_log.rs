//! The read log: the transactional memory locations read from during a transaction.
//!
//! Entries become `None` when the commit algorithm filters out locations that the write log
//! also holds; the remaining entries are the live ones.

use vstd::prelude::*;
use crate::epoch::{all_valid, loaded_from, observed_from, valid_read, EpochLock, QuiesceEpoch};
use crate::fvec::FVec;
use crate::tcell_erased::TCellErased;

verus! {

/// The capacity a new read log starts with.
pub const READ_CAPACITY: usize = 0;

/// The live locations of a log, in order.
pub open spec fn live_cells<'a>(s: Seq<Option<&'a TCellErased>>) -> Seq<&'a TCellErased>
    decreases s.len(),
{
    if s.len() == 0 {
        Seq::empty()
    } else {
        let rest = live_cells(s.drop_last());
        match s.last() {
            Some(c) => rest.push(c),
            None => rest,
        }
    }
}

/// The epoch locks of a sequence of locations.
pub open spec fn locks_of<'a>(cells: Seq<&'a TCellErased>) -> Seq<&'a EpochLock> {
    cells.map_values(|c: &'a TCellErased| &c.current_epoch)
}

proof fn lemma_live_cells_step<'a>(s: Seq<Option<&'a TCellErased>>, i: int)
    requires
        0 <= i < s.len(),
    ensures
        live_cells(s.take(i + 1)) == (match s[i] {
            Some(c) => live_cells(s.take(i)).push(c),
            None => live_cells(s.take(i)),
        }),
{
    assert(s.take(i + 1).drop_last() =~= s.take(i));
    assert(s.take(i + 1).last() == s[i]);
}

/// Loading one more location extends the words observed from the locks of the locations.
pub proof fn lemma_observed_push<'a>(
    locks: Seq<&'a EpochLock>,
    observed: Seq<usize>,
    cell: &'a TCellErased,
    w: usize,
)
    requires
        observed_from(locks, observed),
        loaded_from(&cell.current_epoch, w),
    ensures
        observed_from(locks.push(&cell.current_epoch), observed.push(w)),
{
    assert forall|k: int| 0 <= k < observed.push(w).len() implies #[trigger] loaded_from(
        locks.push(&cell.current_epoch)[k],
        observed.push(w)[k],
    ) by {
        if k < observed.len() {
            assert(locks.push(&cell.current_epoch)[k] == locks[k]);
            assert(observed.push(w)[k] == observed[k]);
        }
    }
}

/// Observing one more word keeps every word valid exactly when the new one is.
pub proof fn lemma_all_valid_push(pinned: QuiesceEpoch, observed: Seq<usize>, w: usize)
    ensures
        all_valid(pinned, observed.push(w)) == (all_valid(pinned, observed) && valid_read(pinned, w)),
{
    if all_valid(pinned, observed) && valid_read(pinned, w) {
        assert forall|i: int| 0 <= i < observed.push(w).len() implies #[trigger] valid_read(
            pinned,
            observed.push(w)[i],
        ) by {
            if i < observed.len() {
                assert(observed.push(w)[i] == observed[i]);
            }
        }
    }
    if all_valid(pinned, observed.push(w)) {
        assert(valid_read(pinned, observed.push(w)[observed.len() as int]));
        assert forall|i: int| 0 <= i < observed.len() implies #[trigger] valid_read(
            pinned,
            observed[i],
        ) by {
            assert(valid_read(pinned, observed.push(w)[i]));
        }
    }
}

/// The locations read from during a transaction.
#[derive(Debug)]
pub struct ReadLog<'tcell> {
    data: FVec<Option<&'tcell TCellErased>>,
}

impl<'tcell> View for ReadLog<'tcell> {
    type V = Seq<Option<&'tcell TCellErased>>;

    closed spec fn view(&self) -> Seq<Option<&'tcell TCellErased>> {
        self.data@
    }
}

impl<'tcell> ReadLog<'tcell> {
    /// The number of entries the log holds without allocating.
    pub closed spec fn capacity_spec(&self) -> nat {
        self.data.capacity_spec()
    }

    /// The log is well formed.
    pub closed spec fn wf(&self) -> bool {
        self.data.wf()
    }

    /// An empty log.
    pub fn new() -> (r: Self)
        ensures
            r.wf(),
            r@ == Seq::<Option<&'tcell TCellErased>>::empty(),
            r.capacity_spec() == READ_CAPACITY,
    {
        ReadLog { data: FVec::with_capacity(READ_CAPACITY) }
    }

    /// Returns true if nothing was logged.
    pub fn is_empty(&self) -> (r: bool)
        ensures
            r == (self@.len() == 0),
    {
        self.data.is_empty()
    }

    /// Returns true if logging one more read would allocate.
    pub fn next_push_allocates(&self) -> (r: bool)
        requires
            self.wf(),
        ensures
            r == (self.capacity_spec() == self@.len()),
    {
        self.data.next_push_allocates()
    }

    /// Logs a read of `erased`.
    pub fn record(&mut self, erased: &'tcell TCellErased)
        requires
            old(self).wf(),
            old(self)@.len() < usize::MAX,
        ensures
            final(self).wf(),
            final(self)@ == old(self)@.push(Some(erased)),
    {
        self.data.push(Some(erased))
    }

    /// Drops the entry at `index` from the live reads.
    pub fn forget(&mut self, index: usize)
        requires
            old(self).wf(),
            index < old(self)@.len(),
        ensures
            final(self).wf(),
            final(self).capacity_spec() == old(self).capacity_spec(),
            final(self)@ == old(self)@.update(index as int, None),
    {
        self.data.set(index, None)
    }

    /// Empties the log.
    pub fn clear(&mut self)
        requires
            old(self).wf(),
        ensures
            final(self).wf(),
            final(self)@ == Seq::<Option<&'tcell TCellErased>>::empty(),
            final(self).capacity_spec() == old(self).capacity_spec(),
    {
        self.data.clear()
    }

    /// The number of entries.
    pub fn len(&self) -> (r: usize)
        ensures
            r == self@.len(),
    {
        self.data.len()
    }

    /// The entry at `index`.
    pub fn entry_at(&self, index: usize) -> (r: Option<&'tcell TCellErased>)
        requires
            index < self@.len(),
        ensures
            r == self@[index as int],
    {
        *self.data.get(index)
    }

    /// The epoch locks of the live entries, in order.
    pub fn epoch_locks<'a>(&'a self) -> (r: Vec<&'a EpochLock>)
        ensures
            r@ == locks_of(live_cells(self@)),
    {
        let mut result: Vec<&'a EpochLock> = Vec::new();
        let n = self.data.len();
        let mut i: usize = 0;
        while i < n
            invariant
                n == self@.len(),
                i <= n,
                result@ == locks_of(live_cells(self@.take(i as int))),
            decreases n - i,
        {
            proof {
                lemma_live_cells_step(self@, i as int);
            }
            match *self.data.get(i) {
                Some(cell) => {
                    result.push(&cell.current_epoch);
                },
                None => {},
            }
            proof {
                assert(result@ =~= locks_of(live_cells(self@.take(i + 1))));
            }
            i = i + 1;
        }
        proof {
            assert(self@.take(n as int) =~= self@);
        }
        result
    }

    /// Checks that every live read is still valid for a transaction pinned at `pin_epoch`: no
    /// location was written after the pin, nor is locked. The locks are loaded from shared
    /// memory; a log without live reads is always valid.
    pub fn validate_reads(&self, pin_epoch: QuiesceEpoch) -> (r: bool)
        ensures
            exists|observed: Seq<usize>|
                #[trigger] observed_from(locks_of(live_cells(self@)), observed) && r == all_valid(
                    pin_epoch,
                    observed,
                ),
            live_cells(self@).len() == 0 ==> r,
            !r ==> live_cells(self@).len() > 0,
    {
        let n = self.data.len();
        let ghost mut observed: Seq<usize> = Seq::empty();
        let mut valid = true;
        let mut i: usize = 0;
        while i < n
            invariant
                n == self@.len(),
                i <= n,
                observed_from(locks_of(live_cells(self@.take(i as int))), observed),
                valid == all_valid(pin_epoch, observed),
            decreases n - i,
        {
            proof {
                lemma_live_cells_step(self@, i as int);
            }
            match *self.data.get(i) {
                Some(cell) => {
                    let w = cell.current_epoch.observe();
                    let ok = pin_epoch.read_write_valid(w);
                    proof {
                        lemma_all_valid_push(pin_epoch, observed, w);
                        lemma_observed_push(
                            locks_of(live_cells(self@.take(i as int))),
                            observed,
                            cell,
                            w,
                        );
                        observed = observed.push(w);
                        assert(locks_of(live_cells(self@.take(i + 1))) =~= locks_of(
                            live_cells(self@.take(i as int)),
                        ).push(&cell.current_epoch));
                    }
                    valid = valid && ok;
                },
                None => {},
            }
            i = i + 1;
        }
        proof {
            assert(self@.take(n as int) =~= self@);
        }
        valid
    }
}

proof fn lemma_live_cells_grow<'a>(s: Seq<Option<&'a TCellErased>>, i: int)
    requires
        0 <= i < s.len(),
        s[i] is Some,
    ensures
        live_cells(s).len() > 0,
    decreases s.len(),
{
    if i < s.len() - 1 {
        assert(s.drop_last()[i] == s[i]);
        lemma_live_cells_grow(s.drop_last(), i);
        assert(live_cells(s).len() >= live_cells(s.drop_last()).len());
    }
}

/// Validating reads answers true exactly when the word loaded from the lock of every live
/// read, in order, is valid for the pin: one stale read (locked, or written after the pin)
/// makes it false, whatever the other reads.
pub proof fn law_validation_needs_every_read(
    log: ReadLog,
    pin_epoch: QuiesceEpoch,
    observed: Seq<usize>,
    r: bool,
)
    requires
        observed_from(locks_of(live_cells(log@)), observed),
        r == all_valid(pin_epoch, observed),
    ensures
        observed.len() == live_cells(log@).len(),
        forall|k: int|
            0 <= k < observed.len() ==> #[trigger] loaded_from(
                &live_cells(log@)[k].current_epoch,
                observed[k],
            ),
        r <==> forall|k: int| 0 <= k < observed.len() ==> observed[k] <= pin_epoch@,
        forall|k: int| 0 <= k < observed.len() && observed[k] > pin_epoch@ ==> !r,
{
    assert forall|k: int| 0 <= k < observed.len() implies #[trigger] loaded_from(
        &live_cells(log@)[k].current_epoch,
        observed[k],
    ) by {
        assert(locks_of(live_cells(log@))[k] == &live_cells(log@)[k].current_epoch);
    }
    if r {
        assert forall|k: int| 0 <= k < observed.len() implies observed[k] <= pin_epoch@ by {
            assert(valid_read(pin_epoch, observed[k]));
        }
    }
    if forall|k: int| 0 <= k < observed.len() ==> observed[k] <= pin_epoch@ {
        assert forall|k: int| 0 <= k < observed.len() implies #[trigger] valid_read(
            pin_epoch,
            observed[k],
        ) by {}
    }
    assert forall|k: int| 0 <= k < observed.len() && observed[k] > pin_epoch@ implies !r by {
        assert(!valid_read(pin_epoch, observed[k]));
    }
}

} // verus!
