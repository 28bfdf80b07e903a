//! Garbage collection bookkeeping.
//!
//! During a transaction garbage is queued speculatively in the current bag. If the transaction
//! fails the bag is emptied; if it commits, the bag is sealed with the epoch that the commit
//! ticked the clock from. Sealed bags are collected, oldest first, once every thread has moved
//! past their epoch: collecting up to an epoch hands back the garbage of every bag sealed before
//! it.

use vstd::prelude::*;
use crate::epoch::QuiesceEpoch;
use crate::fvec::FVec;
use crate::usize_aligned::ForcedUsizeAligned;

verus! {

/// The number of sealed bags a thread keeps before it collects.
pub const UNUSED_BAG_COUNT: usize = 64;

/// An in place `FnOnce`: running it a second time does nothing.
pub trait FnOnceish {
    /// Runs the queued action.
    fn call(&mut self);
}

/// A value queued for dropping by the garbage collector.
#[derive(Debug)]
pub struct Queued<T> {
    to_drop: Option<ForcedUsizeAligned<T>>,
}

impl<T> Queued<T> {
    /// Whether the value is still waiting to be dropped.
    pub closed spec fn is_pending(&self) -> bool {
        self.to_drop is Some
    }

    /// Queues `to_drop`.
    pub fn new(to_drop: T) -> (r: Self)
        ensures
            r.is_pending(),
    {
        Queued { to_drop: Some(ForcedUsizeAligned::new(to_drop)) }
    }
}

impl<T> FnOnceish for Queued<T> {
    /// Drops the queued value.
    fn call(&mut self)
        ensures
            !final(self).is_pending(),
    {
        self.to_drop = None;
    }
}

/// A bag of garbage sealed with the epoch after which nobody can still reach it.
#[derive(Debug)]
pub struct SealedBag<G> {
    pub quiesce_epoch: QuiesceEpoch,
    pub queued: Vec<G>,
}

/// The garbage of a sequence of sealed bags, oldest first.
pub open spec fn bag_items<G>(s: Seq<SealedBag<G>>) -> Seq<G>
    decreases s.len(),
{
    if s.len() == 0 {
        Seq::empty()
    } else {
        bag_items(s.drop_last()) + s.last().queued@
    }
}

/// The epochs of sealed bags are strictly increasing.
pub open spec fn epochs_increasing<G>(s: Seq<SealedBag<G>>) -> bool {
    forall|i: int, j: int| 0 <= i < j < s.len() ==> s[i].quiesce_epoch@ < s[j].quiesce_epoch@
}

/// The garbage of a thread: the bag of the running transaction and the sealed bags.
#[derive(Debug)]
pub struct ThreadGarbage<G> {
    current_bag: FVec<G>,
    sealed_bags: Vec<SealedBag<G>>,
}

impl<G> ThreadGarbage<G> {
    /// The garbage queued by the running transaction.
    pub closed spec fn current(&self) -> Seq<G> {
        self.current_bag@
    }

    /// The sealed bags, oldest first.
    pub closed spec fn sealed(&self) -> Seq<SealedBag<G>> {
        self.sealed_bags@
    }

    /// The number of items the current bag holds without allocating.
    pub closed spec fn current_capacity(&self) -> nat {
        self.current_bag.capacity_spec()
    }

    /// Sealed bags are not empty, their epochs increase, and there are at most
    /// `UNUSED_BAG_COUNT` of them.
    pub closed spec fn wf(&self) -> bool {
        &&& self.current_bag.wf()
        &&& epochs_increasing(self.sealed_bags@)
        &&& self.sealed_bags@.len() <= UNUSED_BAG_COUNT
        &&& forall|i: int|
            0 <= i < self.sealed_bags@.len() ==> #[trigger] self.sealed_bags@[i].queued@.len() > 0
    }

    /// No garbage at all.
    pub fn new() -> (r: Self)
        ensures
            r.wf(),
            r.current() == Seq::<G>::empty(),
            r.sealed() == Seq::<SealedBag<G>>::empty(),
    {
        ThreadGarbage { current_bag: FVec::new(), sealed_bags: Vec::new() }
    }

    /// Returns true if the running transaction queued no garbage.
    pub fn is_current_epoch_empty(&self) -> (r: bool)
        ensures
            r == (self.current().len() == 0),
    {
        self.current_bag.is_empty()
    }

    /// Returns true if the running transaction queued no garbage.
    pub fn is_speculative_bag_empty(&self) -> (r: bool)
        ensures
            r == (self.current().len() == 0),
    {
        self.current_bag.is_empty()
    }

    /// Forgets the garbage of the running transaction without running it.
    pub fn leak_current_epoch(&mut self)
        requires
            old(self).wf(),
        ensures
            final(self).wf(),
            final(self).current() == Seq::<G>::empty(),
            final(self).sealed() == old(self).sealed(),
            final(self).current_capacity() == old(self).current_capacity(),
    {
        while !self.current_bag.is_empty()
            invariant
                self.wf(),
                self.sealed() == old(self).sealed(),
                self.current_capacity() == old(self).current_capacity(),
            decreases self.current_bag@.len(),
        {
            if let Some(value) = self.current_bag.pop() {
                let _leaked = std::mem::ManuallyDrop::new(value);
            }
        }
    }

    /// Drops the garbage of a failed transaction.
    pub fn abort_speculative_garbage(&mut self)
        requires
            old(self).wf(),
        ensures
            final(self).wf(),
            final(self).current() == Seq::<G>::empty(),
            final(self).sealed() == old(self).sealed(),
    {
        self.current_bag.clear()
    }

    /// Returns true if queueing one more item would allocate.
    pub fn next_queue_allocates(&self) -> (r: bool)
        requires
            self.wf(),
        ensures
            r == (self.current_capacity() == self.current().len()),
    {
        self.current_bag.next_push_allocates()
    }

    /// Queues `value` in the current bag.
    pub fn trash(&mut self, value: G)
        requires
            old(self).wf(),
            old(self).current().len() < usize::MAX,
        ensures
            final(self).wf(),
            final(self).current() == old(self).current().push(value),
            final(self).sealed() == old(self).sealed(),
    {
        self.current_bag.push(value)
    }

    /// Seals the current bag, if it is not empty, with `quiesce_epoch`, which must come after
    /// the epochs of the bags sealed before. Returns true if the sealed bags are now full, so
    /// that the caller must wait for other threads and collect.
    pub fn seal_with_epoch(&mut self, quiesce_epoch: QuiesceEpoch) -> (r: bool)
        requires
            old(self).wf(),
            quiesce_epoch.is_active_spec(),
            old(self).sealed().len() > 0 ==> old(self).sealed().last().quiesce_epoch@
                < quiesce_epoch@,
            old(self).sealed().len() < UNUSED_BAG_COUNT,
        ensures
            final(self).wf(),
            final(self).current() == Seq::<G>::empty(),
            old(self).current().len() == 0 ==> final(self).sealed() == old(self).sealed(),
            old(self).current().len() > 0 ==> final(self).sealed().len() == old(self).sealed().len()
                + 1 && final(self).sealed().drop_last() == old(self).sealed() && final(self).sealed().last().quiesce_epoch == quiesce_epoch && final(self).sealed().last().queued@
                == old(self).current(),
            r == (final(self).sealed().len() == UNUSED_BAG_COUNT),
    {
        if !self.current_bag.is_empty() {
            let ghost old_sealed = self.sealed_bags@;
            let mut bag: FVec<G> = FVec::new();
            core::mem::swap(&mut bag, &mut self.current_bag);
            let queued = bag.into_vec();
            self.sealed_bags.push(SealedBag { quiesce_epoch, queued });
            proof {
                assert(self.sealed_bags@.drop_last() =~= old_sealed);
                assert forall|i: int|
                    0 <= i < self.sealed_bags@.len() implies #[trigger] self.sealed_bags@[
                    i
                ].queued@.len() > 0 by {
                    if i < old_sealed.len() {
                        assert(self.sealed_bags@[i] == old_sealed[i]);
                    }
                }
            }
        }
        self.sealed_bags.len() == UNUSED_BAG_COUNT
    }

    /// The number of sealed bags.
    pub fn sealed_len(&self) -> (r: usize)
        ensures
            r == self.sealed().len(),
    {
        self.sealed_bags.len()
    }

    /// The epoch of the oldest sealed bag.
    pub fn earliest_epoch(&self) -> (r: QuiesceEpoch)
        requires
            self.sealed().len() > 0,
        ensures
            r == self.sealed()[0].quiesce_epoch,
    {
        self.sealed_bags[0].quiesce_epoch
    }

    /// The epoch of the newest sealed bag.
    pub fn latest_epoch(&self) -> (r: QuiesceEpoch)
        requires
            self.sealed().len() > 0,
        ensures
            r == self.sealed().last().quiesce_epoch,
    {
        self.sealed_bags[self.sealed_bags.len() - 1].quiesce_epoch
    }

    /// Collects the bags sealed before `max_epoch`, returning their garbage oldest first. The
    /// bags sealed at or after `max_epoch` stay.
    pub fn collect(&mut self, max_epoch: QuiesceEpoch) -> (r: Vec<G>)
        requires
            old(self).wf(),
        ensures
            final(self).wf(),
            final(self).current() == old(self).current(),
            exists|k: int|
                #![trigger old(self).sealed().take(k)]
                0 <= k <= old(self).sealed().len() && final(self).sealed() == old(self).sealed().skip(k)
                    && r@ == bag_items(old(self).sealed().take(k)) && (forall|i: int|
                    0 <= i < k ==> #[trigger] old(self).sealed()[i].quiesce_epoch@ < max_epoch@),
            forall|i: int|
                0 <= i < final(self).sealed().len() ==> max_epoch@ <= #[trigger] final(self).sealed()[i].quiesce_epoch@,
    {
        let ghost old_sealed = self.sealed_bags@;
        let mut result: Vec<G> = Vec::new();
        let mut k: usize = 0;
        while self.sealed_bags.len() > 0 && self.sealed_bags[0].quiesce_epoch.get() < max_epoch.get()
            invariant
                0 <= k <= old_sealed.len(),
                k + self.sealed_bags@.len() == old_sealed.len(),
                self.current_bag == old(self).current_bag,
                old_sealed == old(self).sealed_bags@,
                old(self).wf(),
                self.sealed_bags@ == old_sealed.skip(k as int),
                result@ == bag_items(old_sealed.take(k as int)),
                epochs_increasing(old_sealed),
                forall|i: int| 0 <= i < k ==> #[trigger] old_sealed[i].quiesce_epoch@ < max_epoch@,
            decreases self.sealed_bags@.len(),
        {
            let bag = self.sealed_bags.remove(0);
            let mut queued = bag.queued;
            proof {
                assert(old_sealed.take(k + 1).drop_last() =~= old_sealed.take(k as int));
                assert(old_sealed.take(k + 1).last() == old_sealed[k as int]);
                assert(old_sealed.skip(k + 1) =~= old_sealed.skip(k as int).drop_first());
            }
            result.append(&mut queued);
            k = k + 1;
        }
        proof {
            let kk = k as int;
            assert(0 <= kk <= old_sealed.len() && self.sealed_bags@ == old_sealed.skip(kk)
                && result@ == bag_items(old_sealed.take(kk)) && (forall|i: int|
                0 <= i < kk ==> #[trigger] old_sealed[i].quiesce_epoch@ < max_epoch@));
            assert(old_sealed == old(self).sealed());
            assert(self.sealed_bags@ == self.sealed());
            assert(exists|k: int|
                #![trigger old(self).sealed().take(k)]
                0 <= k <= old(self).sealed().len() && self.sealed() == old(self).sealed().skip(k)
                    && result@ == bag_items(old(self).sealed().take(k)) && (forall|i: int|
                    0 <= i < k ==> #[trigger] old(self).sealed()[i].quiesce_epoch@ < max_epoch@));
            assert forall|i: int| 0 <= i < self.sealed_bags@.len() implies #[trigger] self.sealed_bags@[
                i
            ].queued@.len() > 0 by {
                assert(self.sealed_bags@[i] == old_sealed[k + i]);
            }
            assert forall|i: int| 0 <= i < self.sealed_bags@.len() implies max_epoch@
                <= #[trigger] self.sealed_bags@[i].quiesce_epoch@ by {
                assert(self.sealed_bags@[i] == old_sealed[k + i]);
                assert(self.sealed_bags@[0] == old_sealed[k as int]);
                if i > 0 {
                    assert(old_sealed[k as int].quiesce_epoch@ < old_sealed[k + i].quiesce_epoch@);
                }
            }
        }
        result
    }
}

/// The epoch up to which garbage may be collected, given the pinned epochs that other threads
/// were observed at after every thread pinned at or before `epoch` moved on: the minimum of
/// the observed epochs after `epoch`, or the inactive epoch if there are none.
pub fn quiesce_min(observed: &[QuiesceEpoch], epoch: QuiesceEpoch) -> (r: QuiesceEpoch)
    ensures
        r@ >= epoch@,
        forall|i: int|
            0 <= i < observed@.len() && observed@[i]@ > epoch@ ==> r@ <= #[trigger] observed@[i]@,
        (r == QuiesceEpoch::max_value_spec()) || exists|i: int|
            0 <= i < observed@.len() && r == observed@[i] && observed@[i]@ > epoch@,
{
    let mut result = QuiesceEpoch::max_value();
    let mut i: usize = 0;
    while i < observed.len()
        invariant
            i <= observed@.len(),
            result@ >= epoch@,
            forall|j: int|
                0 <= j < i && observed@[j]@ > epoch@ ==> result@ <= #[trigger] observed@[j]@,
            (result == QuiesceEpoch::max_value_spec()) || exists|j: int|
                0 <= j < observed@.len() && result == observed@[j] && observed@[j]@ > epoch@,
        decreases observed@.len() - i,
    {
        let e = observed[i];
        if e.get() > epoch.get() && e.get() < result.get() {
            result = e;
        }
        i = i + 1;
    }
    result
}

/// Collecting up to an epoch after every sealed bag frees every bag: the bags a collection
/// keeps are exactly those sealed at or after the epoch it was given.
pub proof fn law_collect_after_every_bag<G>(
    sealed: Seq<SealedBag<G>>,
    k: int,
    kept: Seq<SealedBag<G>>,
    max_epoch: QuiesceEpoch,
)
    requires
        0 <= k <= sealed.len(),
        kept == sealed.skip(k),
        forall|i: int| 0 <= i < kept.len() ==> max_epoch@ <= #[trigger] kept[i].quiesce_epoch@,
        forall|i: int| 0 <= i < sealed.len() ==> #[trigger] sealed[i].quiesce_epoch@ < max_epoch@,
    ensures
        k == sealed.len(),
        kept.len() == 0,
{
    if k < sealed.len() {
        assert(kept[0] == sealed[k]);
        assert(sealed[k].quiesce_epoch@ < max_epoch@);
        assert(max_epoch@ <= kept[0].quiesce_epoch@);
        assert(false);
    }
}

} // verus!
