//! The write log: the pending writes of a transaction, each to a transactional memory location,
//! with a one word bloom filter over the locations.
//!
//! A pending value is held as the machine words that will be copied into the location at
//! commit. The filter has a bit set for every logged location, so a location whose bit is clear
//! is certainly not in the log.

use vstd::prelude::*;
use crate::bloom::{address_of, filter_answer, lemma_filter_bits, Contained};
use crate::epoch::{all_valid, observed_from, EpochLock, QuiesceEpoch};
use crate::fvec::FVec;
use crate::read_log::{lemma_all_valid_push, lemma_observed_push, live_cells, locks_of};
use crate::tcell_erased::TCellErased;
use std::sync::atomic::AtomicUsize;

verus! {

/// `std::ptr::eq`: whether `a` and `b` point to the same location. Claimed: references to the
/// same location are to the same value. Left unsaid: that references to equal values are to the
/// same location, which is false of two distinct locations holding equal values.
#[verifier::external_body]
fn same_cell(a: &TCellErased, b: &TCellErased) -> (r: bool)
    ensures
        r ==> a == b,
{
    std::ptr::eq(a, b)
}

/// The shift applied to an address before hashing, for a location type of alignment `align`:
/// one per power of two that the alignment exceeds among 1, 2, 4 and 8, plus one.
pub open spec fn shift_for(align: usize) -> usize {
    ((if align > 1 { 1int } else { 0 }) + (if align > 2 { 1int } else { 0 }) + (if align > 4 {
        1int
    } else {
        0
    }) + (if align > 8 { 1int } else { 0 }) + 1) as usize
}

/// The shift applied to an address before hashing.
pub fn calc_shift(align: usize) -> (r: usize)
    ensures
        r == shift_for(align),
        1 <= r <= 5,
{
    let mut r: usize = 1;
    if align > 1 {
        r = r + 1;
    }
    if align > 2 {
        r = r + 1;
    }
    if align > 4 {
        r = r + 1;
    }
    if align > 8 {
        r = r + 1;
    }
    r
}

/// The single bit chosen by the address `raw` shifted by `shift`: bit `(raw >> shift) mod word
/// size`.
pub open spec fn address_bit(raw: usize, shift: usize) -> usize {
    1usize << ((raw >> shift) & ((usize::BITS - 1) as usize))
}

/// The single bit hash of a shifted address: bit `(raw >> shift) mod word size`.
pub fn bloom_bit(raw: usize, shift: usize) -> (r: usize)
    requires
        shift < 32,
    ensures
        r != 0,
        r == address_bit(raw, shift),
{
    let k = (raw >> shift) & ((usize::BITS - 1) as usize);
    assert(((raw >> shift) & ((usize::BITS - 1) as usize)) < usize::BITS) by (bit_vector);
    assert(1usize << ((raw >> shift) & ((usize::BITS - 1) as usize)) != 0) by (bit_vector);
    1usize << k
}

/// The bloom filter hash of a location: a single bit chosen by its address.
pub fn bloom_hash(value: &TCellErased) -> (r: usize)
    ensures
        r != 0,
        exists|addr: usize, align: usize|
            align == vstd::layout::align_of::<TCellErased>() && r == #[trigger] address_bit(
                addr,
                shift_for(align),
            ),
{
    let align = core::mem::align_of::<TCellErased>();
    let shift = calc_shift(align);
    let addr = address_of(value);
    bloom_bit(addr, shift)
}

/// Whether `hash` is what hashing the location `dest` gave.
pub open spec fn hashed(dest: &TCellErased, hash: usize) -> bool {
    call_ensures(bloom_hash, (dest,), hash)
}

/// Whether `found` is what looking `dest` up in `log` gives: nothing if the filter bit of the
/// location's hash is not set, else the first entry that a comparison found to write `dest`.
pub open spec fn find_result<'tcell>(
    log: WriteLog<'tcell>,
    dest: &'tcell TCellErased,
    found: Option<usize>,
) -> bool {
    exists|hash: usize|
        #[trigger] hashed(dest, hash) && if filter_answer(log.filter_bits(), hash) == Contained::No {
            found is None
        } else {
            exists|same: Seq<bool>|
                same_cells(log.entries(), dest, same) && found == #[trigger] first_true(same)
        }
}

/// A pending write of a value, held as machine words, to a location: `target` holds the words
/// of the location's value and `dest` its epoch lock. An entry whose location was taken away is
/// inactive.
#[derive(Debug)]
pub struct WriteEntryImpl<'tcell> {
    dest: Option<&'tcell TCellErased>,
    target: &'tcell [AtomicUsize],
    pending: Vec<usize>,
    hash: usize,
}

/// The number of words an entry takes in the log: its header, its location and its value.
pub open spec fn entry_words<'tcell>(e: WriteEntryImpl<'tcell>) -> nat {
    2 + e.pending_spec().len()
}

/// The number of words a sequence of entries takes.
pub open spec fn total_words<'tcell>(s: Seq<WriteEntryImpl<'tcell>>) -> nat
    decreases s.len(),
{
    if s.len() == 0 {
        0
    } else {
        total_words(s.drop_last()) + entry_words(s.last())
    }
}

/// Replacing the pending value of one entry changes the word count by the difference.
proof fn lemma_total_words_update<'tcell>(s: Seq<WriteEntryImpl<'tcell>>, index: int, new_len: nat)
    requires
        0 <= index < s.len(),
    ensures
        forall|e: WriteEntryImpl<'tcell>|
            e.pending_spec().len() == new_len ==> #[trigger] total_words(s.update(index, e))
                == total_words(s) - s[index].pending_spec().len() + new_len,
        total_words(s) >= s[index].pending_spec().len() + 2,
    decreases s.len(),
{
    if index < s.len() - 1 {
        lemma_total_words_update(s.drop_last(), index, new_len);
        assert forall|e: WriteEntryImpl<'tcell>| e.pending_spec().len() == new_len implies #[trigger] total_words(
            s.update(index, e),
        ) == total_words(s) - s[index].pending_spec().len() + new_len by {
            assert(s.update(index, e).drop_last() =~= s.drop_last().update(index, e));
            assert(total_words(s.drop_last().update(index, e)) == total_words(s.drop_last())
                - s.drop_last()[index].pending_spec().len() + new_len);
        }
    } else {
        assert forall|e: WriteEntryImpl<'tcell>| e.pending_spec().len() == new_len implies #[trigger] total_words(
            s.update(index, e),
        ) == total_words(s) - s[index].pending_spec().len() + new_len by {
            assert(s.update(index, e).drop_last() =~= s.drop_last());
        }
    }
}

/// One entry takes no more words than the log.
pub proof fn lemma_entry_words_bound<'tcell>(s: Seq<WriteEntryImpl<'tcell>>, index: int)
    requires
        0 <= index < s.len(),
    ensures
        total_words(s) >= s[index].pending_spec().len() + 2,
{
    lemma_total_words_update(s, index, s[index].pending_spec().len());
}

/// Stores a word with release ordering.
fn store_release(word: &AtomicUsize, value: usize) {
    word.store(value, std::sync::atomic::Ordering::Release)
}

/// Whether `value` was stored into `word` by this thread.
pub closed spec fn stored(word: &AtomicUsize, value: usize) -> bool {
    call_ensures(store_release, (word, value), ())
}

/// Whether the pending value of the entry `e` was copied into its location: if the entry is
/// active, each word of the value (up to the location's length) was stored into the word of
/// the location at the same position.
pub open spec fn written_back<'tcell>(e: WriteEntryImpl<'tcell>) -> bool {
    e.dest_spec() is Some ==> forall|j: int|
        0 <= j < e.pending_spec().len() && j < e.target_spec()@.len() ==> #[trigger] stored(
            &e.target_spec()@[j],
            e.pending_spec()[j],
        )
}

/// The locations of the active entries, in order.
pub open spec fn active_dests<'tcell>(s: Seq<WriteEntryImpl<'tcell>>) -> Seq<&'tcell TCellErased> {
    live_cells(s.map_values(|e: WriteEntryImpl<'tcell>| e.dest_spec()))
}

/// Whether `same` answers, entry by entry, whether an entry of `entries` writes to `dest`: a
/// yes is only given for an active entry writing to `dest`.
pub open spec fn same_cells<'tcell>(
    entries: Seq<WriteEntryImpl<'tcell>>,
    dest: &'tcell TCellErased,
    same: Seq<bool>,
) -> bool {
    &&& same.len() == entries.len()
    &&& forall|k: int|
        0 <= k < same.len() ==> (#[trigger] same[k] ==> entries[k].dest_spec() == Some(dest)) && (
        entries[k].dest_spec() is None ==> !same[k])
    &&& forall|k: int| 0 <= k < same.len() ==> #[trigger] compared(entries[k], dest, same[k])
}

/// Whether `b` is what comparing the location of the entry `e` with `dest` gave: no for an
/// inactive entry, else the answer of comparing the two addresses (made, not assumed).
pub closed spec fn compared<'tcell>(e: WriteEntryImpl<'tcell>, dest: &TCellErased, b: bool) -> bool {
    match e.dest_spec() {
        Some(c) => call_ensures(same_cell, (c, dest), b),
        None => !b,
    }
}

/// The position of the first `true` in `s`, if any.
pub open spec fn first_true(s: Seq<bool>) -> Option<usize> {
    if exists|i: int| 0 <= i < s.len() && #[trigger] s[i] {
        Some(
            (choose|i: int| 0 <= i < s.len() && #[trigger] s[i] && forall|k: int| 0 <= k < i ==> !s[k])
                as usize,
        )
    } else {
        None
    }
}

/// The position of the first `true` in `s`, if any.
pub fn first_match(s: &Vec<bool>) -> (r: Option<usize>)
    ensures
        r == first_true(s@),
        r matches Some(i) ==> i < s@.len() && s@[i as int] && forall|k: int| 0 <= k < i ==> !s@[k],
        r is None ==> forall|k: int| 0 <= k < s@.len() ==> !s@[k],
{
    let mut i: usize = 0;
    while i < s.len()
        invariant
            i <= s@.len(),
            forall|k: int| 0 <= k < i ==> !s@[k],
        decreases s@.len() - i,
    {
        if s[i] {
            proof {
                let j = choose|j: int| 0 <= j < s@.len() && #[trigger] s@[j] && forall|k: int|
                    0 <= k < j ==> !s@[k];
                assert(s@[i as int]);
                if j < i {
                    assert(!s@[j]);
                }
                if j > i {
                    assert(!s@[i as int]);
                }
                assert(j == i);
            }
            return Some(i);
        }
        i = i + 1;
    }
    None
}

impl<'tcell> WriteEntryImpl<'tcell> {
    /// The destination, or `None` once deactivated.
    pub closed spec fn dest_spec(&self) -> Option<&'tcell TCellErased> {
        self.dest
    }

    /// The words the value is written into.
    pub closed spec fn target_spec(&self) -> &'tcell [AtomicUsize] {
        self.target
    }

    /// The words of the pending value.
    pub closed spec fn pending_spec(&self) -> Seq<usize> {
        self.pending@
    }

    /// The filter bit the destination was logged with.
    pub closed spec fn hash_spec(&self) -> usize {
        self.hash
    }

    /// A pending write of `pending` into `target`, the value of the location `dest`, logged
    /// under filter bit `hash`.
    pub fn new(
        dest: &'tcell TCellErased,
        target: &'tcell [AtomicUsize],
        pending: Vec<usize>,
        hash: usize,
    ) -> (r: Self)
        ensures
            r.dest_spec() == Some(dest),
            r.target_spec() == target,
            r.pending_spec() == pending@,
            r.hash_spec() == hash,
    {
        WriteEntryImpl { dest: Some(dest), target, pending, hash }
    }

    /// The words the value is written into.
    pub fn target(&self) -> (r: &'tcell [AtomicUsize])
        ensures
            r == self.target_spec(),
    {
        self.target
    }

    /// Copies the pending words into the location, if the entry is active.
    pub fn perform_write(&self)
        ensures
            written_back(*self),
    {
        if self.dest.is_some() {
            let n = if self.pending.len() < self.target.len() {
                self.pending.len()
            } else {
                self.target.len()
            };
            let mut i: usize = 0;
            while i < n
                invariant
                    i <= n,
                    n <= self.pending@.len(),
                    n <= self.target@.len(),
                    n == self.pending@.len() || n == self.target@.len(),
                    forall|j: int| 0 <= j < i ==> #[trigger] stored(&self.target@[j], self.pending@[j]),
                decreases n - i,
            {
                store_release(&self.target[i], self.pending[i]);
                proof {
                    assert(stored(&self.target@[i as int], self.pending@[i as int]));
                }
                i = i + 1;
            }
        }
    }

    /// Replaces the pending words.
    fn replace_pending(&mut self, pending: Vec<usize>)
        ensures
            final(self).dest_spec() == old(self).dest_spec(),
            final(self).target_spec() == old(self).target_spec(),
            final(self).hash_spec() == old(self).hash_spec(),
            final(self).pending_spec() == pending@,
    {
        self.pending = pending
    }

    /// The destination, if the entry is active.
    pub fn tcell(&self) -> (r: Option<&'tcell TCellErased>)
        ensures
            r == self.dest_spec(),
    {
        self.dest
    }

    /// The words of the pending value.
    pub fn pending(&self) -> (r: &[usize])
        ensures
            r@ == self.pending_spec(),
    {
        self.pending.as_slice()
    }

    /// The number of words the entry takes in the log.
    pub fn word_len(&self) -> (r: usize)
        requires
            entry_words(*self) <= usize::MAX,
        ensures
            r == entry_words(*self),
    {
        2 + self.pending.len()
    }
}

/// Operations on a pending write.
pub trait WriteEntry {
    /// Takes the destination away: the entry no longer writes anything.
    fn deactivate(&mut self);

    /// Returns true if the entry writes to `v`.
    fn is_dest_tcell(&self, v: &TCellErased) -> bool;
}

impl<'tcell> WriteEntry for WriteEntryImpl<'tcell> {
    fn deactivate(&mut self)
        ensures
            final(self).dest_spec() == None::<&'tcell TCellErased>,
            final(self).target_spec() == old(self).target_spec(),
            final(self).pending_spec() == old(self).pending_spec(),
            final(self).hash_spec() == old(self).hash_spec(),
    {
        self.dest = None
    }

    fn is_dest_tcell(&self, v: &TCellErased) -> (r: bool)
        ensures
            r ==> self.dest_spec() == Some(v),
            compared(*self, v, r),
    {
        match self.dest {
            Some(tcell) => same_cell(tcell, v),
            None => false,
        }
    }
}

/// Where a location stands in a write log.
#[derive(Debug, PartialEq, Eq, Structural, Clone, Copy)]
pub enum Entry {
    /// Not in the log; its filter bit is `hash`.
    Vacant { hash: usize },
    /// Written by the entry at `index`; its filter bit is `hash`.
    Occupied { index: usize, hash: usize },
}

impl Entry {
    /// The filter bit of the location.
    pub open spec fn hash_spec(self) -> usize {
        match self {
            Entry::Occupied { hash, .. } => hash,
            Entry::Vacant { hash } => hash,
        }
    }

    /// The index of the entry writing to the location, if any.
    pub open spec fn index_spec(self) -> Option<usize> {
        match self {
            Entry::Occupied { index, .. } => Some(index),
            Entry::Vacant { .. } => None,
        }
    }

    /// A location that is not in the log.
    pub fn new_hash(hash: usize) -> (r: Entry)
        ensures
            r == (Entry::Vacant { hash }),
    {
        Entry::Vacant { hash }
    }

    /// A location written by the entry at `index`.
    pub fn new_occupied(index: usize, hash: usize) -> (r: Entry)
        ensures
            r == (Entry::Occupied { index, hash }),
    {
        Entry::Occupied { index, hash }
    }
}

/// The pending writes of a transaction.
#[derive(Debug)]
pub struct WriteLog<'tcell> {
    filter: usize,
    data: FVec<WriteEntryImpl<'tcell>>,
    words: usize,
}

impl<'tcell> WriteLog<'tcell> {
    /// The entries, in the order they were logged.
    pub closed spec fn entries(&self) -> Seq<WriteEntryImpl<'tcell>> {
        self.data@
    }

    /// The bloom filter word.
    pub closed spec fn filter_bits(&self) -> usize {
        self.filter
    }

    /// The number of entries the log holds without allocating.
    pub closed spec fn capacity_spec(&self) -> nat {
        self.data.capacity_spec()
    }

    /// The filter is empty exactly when the log is, has the bit of every entry set, and the
    /// word count is that of the entries.
    pub closed spec fn wf(&self) -> bool {
        &&& self.data.wf()
        &&& (self.filter == 0 <==> self.data@.len() == 0)
        &&& forall|i: int|
            0 <= i < self.data@.len() ==> #[trigger] self.data@[i].hash_spec() != 0
                && self.filter & self.data@[i].hash_spec() != 0
        &&& self.words == total_words(self.data@)
    }

    proof fn lemma_entry_in_filter(&self, i: int)
        requires
            self.wf(),
            0 <= i < self.entries().len(),
        ensures
            self.filter_bits() & self.entries()[i].hash_spec() != 0,
            self.entries()[i].hash_spec() != 0,
    {
        assert(self.data@[i].hash_spec() != 0);
    }

    proof fn lemma_empty_filter(&self)
        requires
            self.wf(),
            self.entries().len() == 0,
        ensures
            self.filter_bits() == 0,
    {
    }

    /// An empty log.
    pub fn new() -> (r: Self)
        ensures
            r.wf(),
            r.entries() == Seq::<WriteEntryImpl<'tcell>>::empty(),
            r.filter_bits() == 0,
    {
        WriteLog { filter: 0, data: FVec::new(), words: 0 }
    }

    /// Tests the filter for the single bit `hash`: `No` means no entry was logged with it.
    pub fn contained(&self, hash: usize) -> (r: Contained)
        ensures
            r == filter_answer(self.filter_bits(), hash),
    {
        if self.filter & hash != 0 {
            Contained::Maybe
        } else {
            Contained::No
        }
    }

    /// The number of words the entries take.
    pub fn word_len(&self) -> (r: usize)
        requires
            self.wf(),
        ensures
            r == total_words(self.entries()),
    {
        self.words
    }

    /// Empties the log, dropping the pending values.
    pub fn clear(&mut self)
        requires
            old(self).wf(),
        ensures
            final(self).wf(),
            final(self).entries() == Seq::<WriteEntryImpl<'tcell>>::empty(),
            final(self).filter_bits() == 0,
    {
        self.filter = 0;
        self.data.clear();
        self.words = 0;
    }

    /// Empties the log after its pending values were written out.
    pub fn clear_no_drop(&mut self)
        requires
            old(self).wf(),
        ensures
            final(self).wf(),
            final(self).entries() == Seq::<WriteEntryImpl<'tcell>>::empty(),
            final(self).filter_bits() == 0,
    {
        self.clear()
    }

    /// Returns true if nothing was logged.
    pub fn is_empty(&self) -> (r: bool)
        requires
            self.wf(),
        ensures
            r == (self.entries().len() == 0),
    {
        self.filter == 0
    }

    /// The entries, in order.
    pub fn write_entries(&self) -> (r: &[WriteEntryImpl<'tcell>])
        ensures
            r@ == self.entries(),
    {
        self.data.as_slice()
    }

    /// The epoch locks of the locations of the active entries, in order.
    pub fn epoch_locks<'a>(&'a self) -> (r: Vec<&'a EpochLock>)
        ensures
            r@ == locks_of(active_dests(self.entries())),
    {
        let mut result: Vec<&'a EpochLock> = Vec::new();
        let n = self.data.len();
        let ghost dests = self.data@.map_values(|e: WriteEntryImpl<'tcell>| e.dest_spec());
        let mut i: usize = 0;
        while i < n
            invariant
                n == self.data@.len(),
                dests == self.data@.map_values(|e: WriteEntryImpl<'tcell>| e.dest_spec()),
                i <= n,
                result@ == locks_of(live_cells(dests.take(i as int))),
            decreases n - i,
        {
            proof {
                assert(dests.take(i + 1).drop_last() =~= dests.take(i as int));
                assert(dests.take(i + 1).last() == dests[i as int]);
            }
            match self.data.get(i).tcell() {
                Some(cell) => {
                    result.push(&cell.current_epoch);
                },
                None => {},
            }
            proof {
                assert(result@ =~= locks_of(live_cells(dests.take(i + 1))));
            }
            i = i + 1;
        }
        proof {
            assert(dests.take(n as int) =~= dests);
        }
        result
    }

    /// Finds the first active entry writing to `dest` by searching every entry. Whether an
    /// entry writes to `dest` is decided by comparing addresses, which are not modelled here:
    /// the search is stated over the answer of each comparison.
    pub fn find_slow(&self, dest_tcell: &TCellErased) -> (r: Option<usize>)
        ensures
            exists|same: Seq<bool>|
                same_cells(self.entries(), dest_tcell, same) && r == #[trigger] first_true(same),
            r matches Some(i) ==> i < self.entries().len() && self.entries()[i as int].dest_spec()
                == Some(dest_tcell),
    {
        let n = self.data.len();
        let mut same: Vec<bool> = Vec::new();
        let mut i: usize = 0;
        while i < n
            invariant
                n == self.data@.len(),
                i <= n,
                same@.len() == i,
                forall|k: int|
                    0 <= k < i ==> (#[trigger] same@[k] ==> self.entries()[k].dest_spec() == Some(
                        dest_tcell,
                    )) && (self.entries()[k].dest_spec() is None ==> !same@[k]),
                forall|k: int| 0 <= k < i ==> #[trigger] compared(self.entries()[k], dest_tcell, same@[k]),
            decreases n - i,
        {
            same.push(self.data.get(i).is_dest_tcell(dest_tcell));
            i = i + 1;
        }
        let r = first_match(&same);
        proof {
            assert(same_cells(self.entries(), dest_tcell, same@));
        }
        r
    }

    /// Finds the first active entry writing to `dest`, consulting the filter first: a location
    /// whose filter bit is not set is in no entry.
    pub fn find(&self, dest_tcell: &TCellErased) -> (r: Option<usize>)
        ensures
            exists|hash: usize|
                #[trigger] hashed(dest_tcell, hash) && if filter_answer(self.filter_bits(), hash)
                    == Contained::No {
                    r is None
                } else {
                    exists|same: Seq<bool>|
                        same_cells(self.entries(), dest_tcell, same) && r == #[trigger] first_true(
                            same,
                        )
                },
            r matches Some(i) ==> i < self.entries().len() && self.entries()[i as int].dest_spec()
                == Some(dest_tcell),
            find_result(*self, dest_tcell, r),
    {
        let hash = bloom_hash(dest_tcell);
        proof {
            assert(hashed(dest_tcell, hash));
        }
        if self.contained(hash) == Contained::No {
            None
        } else {
            self.find_slow(dest_tcell)
        }
    }

    /// Where `dest` stands in the log, with its filter bit.
    pub fn entry(&self, dest_tcell: &TCellErased) -> (r: Entry)
        ensures
            exists|hash: usize|
                #[trigger] hashed(dest_tcell, hash) && r.hash_spec() == hash && if filter_answer(
                    self.filter_bits(),
                    hash,
                ) == Contained::No {
                    r.index_spec() is None
                } else {
                    exists|same: Seq<bool>|
                        same_cells(self.entries(), dest_tcell, same) && r.index_spec()
                            == #[trigger] first_true(same)
                },
            r matches Entry::Occupied { index, hash } ==> index < self.entries().len()
                && self.entries()[index as int].dest_spec() == Some(dest_tcell) && hash != 0,
            r matches Entry::Vacant { hash } ==> hash != 0,
    {
        let hash = bloom_hash(dest_tcell);
        proof {
            assert(hashed(dest_tcell, hash));
        }
        if self.contained(hash) == Contained::No {
            Entry::new_hash(hash)
        } else {
            let found = self.find_slow(dest_tcell);
            match found {
                Some(index) => Entry::new_occupied(index, hash),
                None => Entry::new_hash(hash),
            }
        }
    }

    /// Returns true if logging one more write would allocate.
    pub fn next_push_allocates(&self) -> (r: bool)
        requires
            self.wf(),
        ensures
            r == (self.capacity_spec() == self.entries().len()),
    {
        self.data.next_push_allocates()
    }

    /// Logs a pending write of `val` into `target`, the value of `dest_tcell`, whose filter bit
    /// is `hash`.
    pub fn record(
        &mut self,
        dest_tcell: &'tcell TCellErased,
        target: &'tcell [AtomicUsize],
        val: Vec<usize>,
        hash: usize,
    )
        requires
            old(self).wf(),
            hash != 0,
            old(self).entries().len() < usize::MAX,
            total_words(old(self).entries()) + 2 + val@.len() <= usize::MAX,
        ensures
            final(self).wf(),
            final(self).entries().len() == old(self).entries().len() + 1,
            forall|i: int|
                0 <= i < old(self).entries().len() ==> final(self).entries()[i] == old(self).entries()[i],
            final(self).entries().last().dest_spec() == Some(dest_tcell),
            final(self).entries().last().target_spec() == target,
            final(self).entries().last().pending_spec() == val@,
            final(self).entries().last().hash_spec() == hash,
            final(self).filter_bits() == old(self).filter_bits() | hash,
    {
        let ghost old_data = self.data@;
        let ghost old_filter = self.filter;
        let added = 2 + val.len();
        let entry = WriteEntryImpl::new(dest_tcell, target, val, hash);
        self.filter = self.filter | hash;
        self.data.push(entry);
        self.words = self.words + added;
        proof {
            lemma_filter_bits(old_filter, 0, hash);
            assert(self.data@.drop_last() =~= old_data);
            assert forall|i: int| 0 <= i < self.data@.len() implies #[trigger] self.data@[
                i
            ].hash_spec() != 0 && self.filter & self.data@[i].hash_spec() != 0 by {
                lemma_filter_bits(old_filter, self.data@[i].hash_spec(), hash);
            }
        }
    }

    /// Replaces the pending value of the entry at `index` by `val`.
    pub fn update(&mut self, index: usize, val: Vec<usize>)
        requires
            old(self).wf(),
            index < old(self).entries().len(),
            total_words(old(self).entries()) - old(self).entries()[index as int].pending_spec().len()
                + val@.len() <= usize::MAX,
        ensures
            final(self).wf(),
            final(self).filter_bits() == old(self).filter_bits(),
            final(self).entries().len() == old(self).entries().len(),
            forall|i: int|
                0 <= i < old(self).entries().len() && i != index ==> final(self).entries()[i]
                    == old(self).entries()[i],
            final(self).entries()[index as int].dest_spec() == old(self).entries()[index as int].dest_spec(),
            final(self).entries()[index as int].target_spec() == old(self).entries()[index as int].target_spec(),
            final(self).entries()[index as int].pending_spec() == val@,
    {
        let ghost old_data = self.data@;
        let old_len = self.data.get(index).pending.len();
        let new_len = val.len();
        proof {
            lemma_total_words_update(old_data, index as int, val@.len());
        }
        let entry = self.data.get_mut(index);
        entry.replace_pending(val);
        proof {
            assert(self.data@ =~= old_data.update(index as int, self.data@[index as int]));
        }
        self.words = self.words - old_len + new_len;
        proof {
            lemma_total_words_update(old_data, index as int, new_len as nat);
            assert forall|i: int| 0 <= i < self.data@.len() implies #[trigger] self.data@[
                i
            ].hash_spec() != 0 && self.filter & self.data@[i].hash_spec() != 0 by {
                assert(self.data@[i].hash_spec() == old_data[i].hash_spec());
            }
        }
    }

    /// Takes the location away from the entry at `index`: it no longer writes anything.
    pub fn deactivate_at(&mut self, index: usize)
        requires
            old(self).wf(),
            index < old(self).entries().len(),
        ensures
            final(self).wf(),
            final(self).filter_bits() == old(self).filter_bits(),
            final(self).entries().len() == old(self).entries().len(),
            forall|i: int|
                0 <= i < old(self).entries().len() && i != index ==> final(self).entries()[i]
                    == old(self).entries()[i],
            final(self).entries()[index as int].dest_spec() == None::<&'tcell TCellErased>,
            final(self).entries()[index as int].pending_spec() == old(self).entries()[index as int].pending_spec(),
    {
        let ghost old_data = self.data@;
        let entry = self.data.get_mut(index);
        entry.deactivate();
        proof {
            assert(self.data@ =~= old_data.update(index as int, self.data@[index as int]));
            lemma_total_words_update(old_data, index as int, old_data[index as int].pending_spec().len());
            assert forall|i: int| 0 <= i < self.data@.len() implies #[trigger] self.data@[
                i
            ].hash_spec() != 0 && self.filter & self.data@[i].hash_spec() != 0 by {
                assert(self.data@[i].hash_spec() == old_data[i].hash_spec());
            }
        }
    }

    /// Copies the pending value of every active entry into its location.
    pub fn perform_writes(&self)
        ensures
            forall|i: int| 0 <= i < self.entries().len() ==> #[trigger] written_back(self.entries()[i]),
    {
        let n = self.data.len();
        let mut i: usize = 0;
        while i < n
            invariant
                n == self.data@.len(),
                n == self.entries().len(),
                i <= n,
                forall|k: int| 0 <= k < i ==> #[trigger] written_back(self.entries()[k]),
            decreases n - i,
        {
            self.data.get(i).perform_write();
            i = i + 1;
        }
    }

    /// Validates the locations of the active entries for a transaction pinned at `pin_epoch`.
    /// The locks are loaded from shared memory; a log without active entries is always valid.
    pub fn validate_writes(&self, pin_epoch: QuiesceEpoch) -> (r: bool)
        ensures
            exists|observed: Seq<usize>|
                #[trigger] observed_from(locks_of(active_dests(self.entries())), observed) && r
                    == all_valid(pin_epoch, observed),
            active_dests(self.entries()).len() == 0 ==> r,
            !r ==> active_dests(self.entries()).len() > 0,
    {
        let n = self.data.len();
        let ghost dests = self.data@.map_values(|e: WriteEntryImpl<'tcell>| e.dest_spec());
        let ghost mut observed: Seq<usize> = Seq::empty();
        let mut valid = true;
        let mut i: usize = 0;
        while i < n
            invariant
                n == self.data@.len(),
                dests == self.data@.map_values(|e: WriteEntryImpl<'tcell>| e.dest_spec()),
                i <= n,
                observed_from(locks_of(live_cells(dests.take(i as int))), observed),
                valid == all_valid(pin_epoch, observed),
            decreases n - i,
        {
            proof {
                assert(dests.take(i + 1).drop_last() =~= dests.take(i as int));
                assert(dests.take(i + 1).last() == dests[i as int]);
            }
            match self.data.get(i).tcell() {
                Some(cell) => {
                    let w = cell.current_epoch.observe();
                    let ok = pin_epoch.read_write_valid(w);
                    proof {
                        lemma_all_valid_push(pin_epoch, observed, w);
                        lemma_observed_push(
                            locks_of(live_cells(dests.take(i as int))),
                            observed,
                            cell,
                            w,
                        );
                        observed = observed.push(w);
                        assert(locks_of(live_cells(dests.take(i + 1))) =~= locks_of(
                            live_cells(dests.take(i as int)),
                        ).push(&cell.current_epoch));
                    }
                    valid = valid && ok;
                },
                None => {},
            }
            i = i + 1;
        }
        proof {
            assert(dests.take(n as int) =~= dests);
            assert(active_dests(self.entries()) == live_cells(dests));
        }
        valid
    }
}

/// The filter has no false negatives: for every logged entry the filter answers `Maybe`, so an
/// answer of `No` means the location is not in the log.
pub proof fn law_bloom_no_false_negatives<'tcell>(log: &WriteLog<'tcell>, i: int)
    requires
        log.wf(),
        0 <= i < log.entries().len(),
    ensures
        filter_answer(log.filter_bits(), log.entries()[i].hash_spec()) == Contained::Maybe,
        log.entries()[i].hash_spec() != 0,
{
    log.lemma_entry_in_filter(i);
}

/// An empty log has an empty filter, so every location is answered `No`.
pub proof fn law_empty_log_contains_nothing<'tcell>(log: &WriteLog<'tcell>, hash: usize)
    requires
        log.wf(),
        log.entries().len() == 0,
    ensures
        filter_answer(log.filter_bits(), hash) == Contained::No,
{
    log.lemma_empty_filter();
    lemma_filter_bits(0, hash, 0);
}

/// A lookup over the comparisons `same` of every entry with `dest` gives the first entry that a
/// comparison found to write `dest`, and nothing only if every comparison said no: an entry is
/// never skipped for a later one, and a found entry is active and writes `dest`.
pub proof fn law_find_gives_first_match<'tcell>(
    entries: Seq<WriteEntryImpl<'tcell>>,
    dest: &'tcell TCellErased,
    same: Seq<bool>,
)
    requires
        same_cells(entries, dest, same),
        entries.len() <= usize::MAX,
    ensures
        first_true(same) matches Some(i) ==> i < entries.len() && same[i as int]
            && entries[i as int].dest_spec() == Some(dest) && forall|k: int| 0 <= k < i ==> !same[k],
        first_true(same) is None ==> forall|k: int| 0 <= k < same.len() ==> !same[k],
        forall|k: int| 0 <= k < same.len() ==> #[trigger] compared(entries[k], dest, same[k]),
{
    if exists|i: int| 0 <= i < same.len() && #[trigger] same[i] {
        let w = choose|i: int| 0 <= i < same.len() && #[trigger] same[i];
        lemma_first_true_exists(same, w);
        let c = choose|i: int| 0 <= i < same.len() && #[trigger] same[i] && forall|k: int|
            0 <= k < i ==> !same[k];
        assert(c as usize as int == c);
        assert(first_true(same) == Some(c as usize));
    }
}

proof fn lemma_first_true_exists(s: Seq<bool>, w: int)
    requires
        0 <= w < s.len(),
        s[w],
    ensures
        exists|i: int| 0 <= i < s.len() && #[trigger] s[i] && forall|k: int| 0 <= k < i ==> !s[k],
    decreases w,
{
    if exists|k: int| 0 <= k < w && #[trigger] s[k] {
        let k = choose|k: int| 0 <= k < w && #[trigger] s[k];
        lemma_first_true_exists(s, k);
    }
}

/// Once the writes are performed, every active entry's pending value has been stored into its
/// location, word by word, each into the word of the location at the same position.
pub proof fn law_every_pending_write_is_stored<'tcell>(log: &WriteLog<'tcell>, i: int, j: int)
    requires
        forall|e: int| 0 <= e < log.entries().len() ==> #[trigger] written_back(log.entries()[e]),
        0 <= i < log.entries().len(),
        log.entries()[i].dest_spec() is Some,
        0 <= j < log.entries()[i].pending_spec().len(),
        j < log.entries()[i].target_spec()@.len(),
    ensures
        stored(&log.entries()[i].target_spec()@[j], log.entries()[i].pending_spec()[j]),
{
    assert(written_back(log.entries()[i]));
}

} // verus!
