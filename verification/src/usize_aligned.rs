//! Wrappers aligning their contents to at least a machine word.

use vstd::prelude::*;

verus! {

/// A value aligned to at least the alignment of a `usize`; over aligned values keep their own
/// alignment.
#[derive(Clone, Copy, Debug)]
pub struct UsizeAligned<T> {
    _align: [usize; 0],
    value: T,
}

impl<T> View for UsizeAligned<T> {
    type V = T;

    closed spec fn view(&self) -> T {
        self.value
    }
}

impl<T> UsizeAligned<T> {
    /// Wraps `value`.
    pub fn new(value: T) -> (r: Self)
        ensures
            r@ == value,
    {
        UsizeAligned { _align: [], value }
    }

    /// Returns the wrapped value.
    pub fn into_inner(self) -> (r: T)
        ensures
            r == self@,
    {
        self.value
    }

    /// A reference to the wrapped value.
    pub fn get(&self) -> (r: &T)
        ensures
            *r == self@,
    {
        &self.value
    }
}

/// A value stored with exactly the alignment of a `usize`, whatever the alignment of `T`: the
/// value itself lives behind a pointer.
#[derive(Debug)]
pub struct ForcedUsizeAligned<T> {
    _align: [usize; 0],
    value: Box<T>,
}

impl<T> View for ForcedUsizeAligned<T> {
    type V = T;

    closed spec fn view(&self) -> T {
        *self.value
    }
}

impl<T> ForcedUsizeAligned<T> {
    /// Wraps `value`.
    pub fn new(value: T) -> (r: Self)
        ensures
            r@ == value,
    {
        ForcedUsizeAligned { _align: [], value: Box::new(value) }
    }

    /// Returns the wrapped value.
    pub fn into_inner(self) -> (r: T)
        ensures
            r == self@,
    {
        *self.value
    }
}

} // verus!
