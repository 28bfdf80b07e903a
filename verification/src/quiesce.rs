//! The list of the threads taking part in transactions, which garbage collection walks to learn
//! when every thread has moved past an epoch.
//!
//! A thread is known by the address of its published epoch; the list holds those addresses.

use vstd::prelude::*;
use crate::fvec::FVec;

verus! {

broadcast use vstd::seq_lib::group_to_multiset_ensures;

/// The registered threads, each by the address of its published epoch.
#[derive(Debug)]
pub struct SynchList {
    synchs: FVec<usize>,
}

impl View for SynchList {
    type V = Seq<usize>;

    closed spec fn view(&self) -> Seq<usize> {
        self.synchs@
    }
}

/// The position of the first occurrence of `id` in `s`, when `s` contains it.
pub open spec fn first_position(s: Seq<usize>, id: usize, p: int) -> bool {
    &&& 0 <= p < s.len()
    &&& s[p] == id
    &&& forall|q: int| 0 <= q < p ==> s[q] != id
}

impl SynchList {
    /// The list is well formed.
    pub closed spec fn wf(&self) -> bool {
        self.synchs.wf()
    }

    /// An empty list.
    pub fn new() -> (r: Self)
        ensures
            r.wf(),
            r@ == Seq::<usize>::empty(),
    {
        SynchList { synchs: FVec::new() }
    }

    /// The number of registered threads.
    pub fn len(&self) -> (r: usize)
        requires
            self.wf(),
        ensures
            r == self@.len(),
    {
        self.synchs.len()
    }

    /// The registered thread at `index`.
    pub fn get(&self, index: usize) -> (r: usize)
        requires
            self.wf(),
            index < self@.len(),
        ensures
            r == self@[index as int],
    {
        *self.synchs.get(index)
    }

    /// Registers the thread `id`.
    pub fn register(&mut self, id: usize)
        requires
            old(self).wf(),
            old(self)@.len() < usize::MAX,
        ensures
            final(self).wf(),
            final(self)@ == old(self)@.push(id),
    {
        self.synchs.push(id)
    }

    /// Unregisters the thread `id`: its first occurrence is replaced by the last entry. Returns
    /// true if it was registered; else the list is unchanged.
    pub fn unregister(&mut self, id: usize) -> (r: bool)
        requires
            old(self).wf(),
        ensures
            final(self).wf(),
            r == old(self)@.contains(id),
            !r ==> final(self)@ == old(self)@,
            r ==> exists|p: int|
                first_position(old(self)@, id, p) && final(self)@ == old(self)@.update(
                    p,
                    old(self)@.last(),
                ).drop_last(),
            final(self)@.to_multiset() == old(self)@.to_multiset().remove(id),
    {
        let ghost before = self.synchs@;
        let n = self.synchs.len();
        let mut i: usize = 0;
        while i < n
            invariant
                self.synchs.wf(),
                self.synchs@ == before,
                before == old(self)@,
                n == before.len(),
                i <= n,
                forall|q: int| 0 <= q < i ==> before[q] != id,
            decreases n - i,
        {
            if *self.synchs.get(i) == id {
                let _ = self.synchs.swap_remove(i);
                proof {
                    assert(before[i as int] == id);
                    assert(before.contains(id));
                    assert(first_position(before, id, i as int));
                    assert(self.synchs@ == before.update(i as int, before.last()).drop_last());
                    lemma_swap_remove_multiset(before, i as int);
                }
                return true;
            }
            i = i + 1;
        }
        proof {
            assert(!before.contains(id));
            assert(before.to_multiset().count(id) == 0);
            assert(before.to_multiset().remove(id) =~= before.to_multiset());
        }
        false
    }
}

/// Replacing the entry at `p` by the last one and dropping the last removes exactly that entry,
/// counted as a multiset.
proof fn lemma_swap_remove_multiset(s: Seq<usize>, p: int)
    requires
        0 <= p < s.len(),
    ensures
        s.update(p, s.last()).drop_last().to_multiset() == s.to_multiset().remove(s[p]),
{
    broadcast use vstd::multiset::group_multiset_properties;

    let u = s.update(p, s.last());
    assert(u.drop_last() =~= u.remove(u.len() - 1));
    assert(u[u.len() - 1] == s.last());
    assert(u.to_multiset() == s.to_multiset().insert(s.last()).remove(s[p]));
    assert(s.to_multiset().insert(s.last()).remove(s[p]).remove(s.last()) =~= s.to_multiset().remove(
        s[p],
    ));
}

/// Registering a thread and unregistering it again leaves the list holding the threads it held
/// before, counted with their multiplicity.
pub proof fn law_register_then_unregister(before: Seq<usize>, id: usize, after: Seq<usize>)
    requires
        after.to_multiset() == before.push(id).to_multiset().remove(id),
    ensures
        after.to_multiset() == before.to_multiset(),
        after.len() == before.len(),
{
    broadcast use vstd::multiset::group_multiset_properties;

    assert(before.push(id).to_multiset().remove(id) =~= before.to_multiset());
    vstd::seq_lib::to_multiset_len(after);
    vstd::seq_lib::to_multiset_len(before);
}

} // verus!
