//! A vector that knows whether the next pushes will allocate.
//!
//! `FVec` keeps its own capacity, which its `Vec` always has room for: pushes that stay within it
//! never reallocate, and a push beyond it grows the capacity as `std`'s `Vec` does (doubling,
//! starting at eight, four or one by the size of the items).

use vstd::prelude::*;

verus! {

/// The capacity a vector of items of `size` bytes first grows to, as `std`'s `Vec` does: eight
/// for single bytes, four up to a kibibyte, else one.
pub open spec fn first_capacity(size: nat) -> nat {
    if size == 1 {
        8
    } else if size <= 1024 {
        4
    } else {
        1
    }
}

/// The capacity after a push into a full vector of capacity `cap` holding items of `size` bytes.
pub open spec fn grown_capacity(cap: nat, size: nat) -> nat {
    if cap == 0 {
        first_capacity(size)
    } else if cap <= usize::MAX / 2 {
        cap * 2
    } else {
        usize::MAX as nat
    }
}

/// A vector with a known capacity.
#[derive(Debug)]
pub struct FVec<T> {
    data: Vec<T>,
    cap: usize,
}

impl<T> View for FVec<T> {
    type V = Seq<T>;

    closed spec fn view(&self) -> Seq<T> {
        self.data@
    }
}

impl<T> FVec<T> {
    /// The capacity: the number of items it holds without allocating.
    pub closed spec fn capacity_spec(&self) -> nat {
        self.cap as nat
    }

    /// The length never exceeds the capacity.
    pub closed spec fn wf(&self) -> bool {
        self.data@.len() <= self.cap
    }

    /// The length of a well formed vector never exceeds its capacity.
    pub proof fn law_len_within_capacity(&self)
        requires
            self.wf(),
        ensures
            self@.len() <= self.capacity_spec(),
    {
    }

    /// An empty vector without any capacity.
    pub fn new() -> (r: Self)
        ensures
            r.wf(),
            r@ == Seq::<T>::empty(),
            r.capacity_spec() == 0,
    {
        FVec::with_capacity(0)
    }

    /// An empty vector with room for `capacity` items.
    pub fn with_capacity(capacity: usize) -> (r: Self)
        ensures
            r.wf(),
            r@ == Seq::<T>::empty(),
            r.capacity_spec() == capacity,
    {
        FVec { data: Vec::with_capacity(capacity), cap: capacity }
    }

    /// Returns true if pushing one more item would allocate.
    pub fn next_push_allocates(&self) -> (r: bool)
        requires
            self.wf(),
        ensures
            r == (self.capacity_spec() == self@.len()),
    {
        self.cap == self.data.len()
    }

    /// Returns true if pushing `n` more items would allocate. The total must fit in a `usize`.
    pub fn next_n_pushes_allocates(&self, n: usize) -> (r: bool)
        requires
            self.wf(),
            self@.len() + n <= usize::MAX,
        ensures
            r == (self.capacity_spec() < self@.len() + n),
            n == 0 ==> !r,
    {
        self.cap < self.data.len() + n
    }

    /// The number of items.
    pub fn len(&self) -> (r: usize)
        ensures
            r == self@.len(),
    {
        self.data.len()
    }

    /// Returns true if there are no items.
    pub fn is_empty(&self) -> (r: bool)
        ensures
            r == (self@.len() == 0),
    {
        self.data.len() == 0
    }

    /// The capacity.
    pub fn capacity(&self) -> (r: usize)
        ensures
            r == self.capacity_spec(),
    {
        self.cap
    }

    /// Appends an item, growing the capacity if the vector is full.
    pub fn push(&mut self, value: T)
        requires
            old(self).wf(),
            old(self)@.len() < usize::MAX,
        ensures
            final(self).wf(),
            final(self)@ == old(self)@.push(value),
            old(self)@.len() < old(self).capacity_spec() ==> final(self).capacity_spec()
                == old(self).capacity_spec(),
            old(self)@.len() == old(self).capacity_spec() ==> final(self).capacity_spec()
                == grown_capacity(old(self).capacity_spec(), vstd::layout::size_of::<T>()),
    {
        if self.cap == self.data.len() {
            let new_cap = if self.cap == 0 {
                let size = core::mem::size_of::<T>();
                if size == 1 {
                    8
                } else if size <= 1024 {
                    4
                } else {
                    1
                }
            } else if self.cap <= usize::MAX / 2 {
                self.cap * 2
            } else {
                usize::MAX
            };
            self.data.reserve(new_cap - self.data.len());
            self.cap = new_cap;
        }
        self.data.push(value);
    }

    /// Appends an item into spare capacity: the vector must not be full.
    pub fn push_unchecked(&mut self, value: T)
        requires
            old(self).wf(),
            old(self)@.len() < old(self).capacity_spec(),
        ensures
            final(self).wf(),
            final(self)@ == old(self)@.push(value),
            final(self).capacity_spec() == old(self).capacity_spec(),
    {
        self.data.push(value)
    }

    /// Removes and returns the last item of a non empty vector.
    pub fn pop_unchecked(&mut self) -> (r: T)
        requires
            old(self).wf(),
            old(self)@.len() > 0,
        ensures
            final(self).wf(),
            final(self).capacity_spec() == old(self).capacity_spec(),
            r == old(self)@.last(),
            final(self)@ == old(self)@.drop_last(),
    {
        self.data.pop().unwrap()
    }

    /// Removes the item at `index`, which must be in bounds, replacing it by the last item.
    pub fn swap_remove_unchecked(&mut self, index: usize) -> (r: T)
        requires
            old(self).wf(),
            index < old(self)@.len(),
        ensures
            final(self).wf(),
            final(self).capacity_spec() == old(self).capacity_spec(),
            r == old(self)@[index as int],
            final(self)@ == old(self)@.update(index as int, old(self)@.last()).drop_last(),
    {
        self.data.swap_remove(index)
    }

    /// Removes and returns the last item.
    pub fn pop(&mut self) -> (r: Option<T>)
        requires
            old(self).wf(),
        ensures
            final(self).wf(),
            final(self).capacity_spec() == old(self).capacity_spec(),
            old(self)@.len() == 0 ==> r.is_none() && final(self)@ == old(self)@,
            old(self)@.len() > 0 ==> r == Some(old(self)@.last()) && final(self)@
                == old(self)@.drop_last(),
    {
        self.data.pop()
    }

    /// Removes the item at `index`, replacing it by the last item.
    pub fn swap_remove(&mut self, index: usize) -> (r: T)
        requires
            old(self).wf(),
            index < old(self)@.len(),
        ensures
            final(self).wf(),
            final(self).capacity_spec() == old(self).capacity_spec(),
            r == old(self)@[index as int],
            final(self)@ == old(self)@.update(index as int, old(self)@.last()).drop_last(),
    {
        self.data.swap_remove(index)
    }

    /// Removes every item, keeping the capacity.
    pub fn clear(&mut self)
        requires
            old(self).wf(),
        ensures
            final(self).wf(),
            final(self)@ == Seq::<T>::empty(),
            final(self).capacity_spec() == old(self).capacity_spec(),
    {
        self.data.clear()
    }

    /// The item at `index`.
    pub fn get(&self, index: usize) -> (r: &T)
        requires
            index < self@.len(),
        ensures
            *r == self@[index as int],
    {
        &self.data[index]
    }

    /// Replaces the item at `index`.
    pub fn set(&mut self, index: usize, value: T)
        requires
            old(self).wf(),
            index < old(self)@.len(),
        ensures
            final(self).wf(),
            final(self).capacity_spec() == old(self).capacity_spec(),
            final(self)@ == old(self)@.update(index as int, value),
    {
        self.data.set(index, value)
    }

    /// The last item.
    pub fn back(&self) -> (r: &T)
        requires
            self@.len() > 0,
        ensures
            *r == self@.last(),
    {
        &self.data[self.data.len() - 1]
    }

    /// The item at `index`, for update.
    pub fn get_mut(&mut self, index: usize) -> (r: &mut T)
        requires
            old(self).wf(),
            index < old(self)@.len(),
        ensures
            *r == old(self)@[index as int],
            final(self)@ == old(self)@.update(index as int, *final(r)),
            final(self).capacity_spec() == old(self).capacity_spec(),
            final(self).wf(),
    {
        &mut self.data[index]
    }

    /// The last item of a non empty vector, for update.
    pub fn back_unchecked(&mut self) -> (r: &mut T)
        requires
            old(self)@.len() > 0,
        ensures
            *r == old(self)@.last(),
            final(self)@ == old(self)@.update(old(self)@.len() - 1, *final(r)),
            final(self).capacity_spec() == old(self).capacity_spec(),
    {
        let last = self.data.len() - 1;
        &mut self.data[last]
    }

    /// The items as a vector.
    pub fn into_vec(self) -> (r: Vec<T>)
        ensures
            r@ == self@,
    {
        self.data
    }

    /// The items as a slice.
    pub fn as_slice(&self) -> (r: &[T])
        ensures
            r@ == self@,
    {
        self.data.as_slice()
    }
}

/// Pushing one item allocates exactly when the vector is full, and pushing nothing never
/// allocates.
pub proof fn law_next_push_is_one_push<T>(v: &FVec<T>)
    requires
        v.wf(),
    ensures
        (v.capacity_spec() == v@.len()) == (v.capacity_spec() < v@.len() + 1),
        !(v.capacity_spec() < v@.len() + 0),
{
    v.law_len_within_capacity();
}

/// A full vector grows: after the push it has room again or reached the largest capacity.
pub proof fn law_growth(cap: nat, size: nat)
    requires
        cap <= usize::MAX,
    ensures
        grown_capacity(cap, size) > cap || cap == usize::MAX,
{
}

impl<T: Copy> FVec<T> {
    /// Appends the items of `slice` into spare capacity: they must fit.
    pub fn extend_unchecked(&mut self, slice: &[T])
        requires
            old(self).wf(),
            old(self)@.len() + slice@.len() <= old(self).capacity_spec(),
        ensures
            final(self).wf(),
            final(self)@ == old(self)@ + slice@,
            final(self).capacity_spec() == old(self).capacity_spec(),
    {
        let ghost start = self.data@;
        let mut i: usize = 0;
        while i < slice.len()
            invariant
                i <= slice@.len(),
                self.cap == old(self).cap,
                start == old(self).data@,
                start.len() + slice@.len() <= self.cap,
                self.data@ == start + slice@.subrange(0, i as int),
            decreases slice@.len() - i,
        {
            self.data.push(slice[i]);
            proof {
                assert(self.data@ =~= start + slice@.subrange(0, i + 1));
            }
            i = i + 1;
        }
        proof {
            assert(slice@.subrange(0, slice@.len() as int) =~= slice@);
        }
    }
}

} // verus!
