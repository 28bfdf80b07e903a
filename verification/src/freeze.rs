//! Types lacking direct interior mutability, whose snapshot stays meaningful while the original
//! is alive.

use vstd::prelude::*;

verus! {

/// Marker for types lacking direct interior mutability. As long as interior mutability resides
/// behind a pointer, a type may implement it by hand.
pub trait Freeze {}

impl Freeze for bool {}
impl Freeze for char {}
impl Freeze for u8 {}
impl Freeze for u16 {}
impl Freeze for u32 {}
impl Freeze for u64 {}
impl Freeze for u128 {}
impl Freeze for usize {}
impl Freeze for i8 {}
impl Freeze for i16 {}
impl Freeze for i32 {}
impl Freeze for i64 {}
impl Freeze for i128 {}
impl Freeze for isize {}
impl Freeze for String {}
impl Freeze for () {}
impl<T> Freeze for Vec<T> {}
impl<T> Freeze for Box<T> {}
impl<T: Freeze> Freeze for Option<T> {}
impl<T: Freeze, E: Freeze> Freeze for Result<T, E> {}
impl<T: Freeze, U: Freeze> Freeze for (T, U) {}
impl<'a, T> Freeze for &'a T {}

/// A value that is asserted to be `Freeze`.
#[derive(Clone, Copy, Debug, PartialEq, Eq, Hash)]
pub struct AssertFreeze<T> {
    value: T,
}

impl<T> View for AssertFreeze<T> {
    type V = T;

    closed spec fn view(&self) -> T {
        self.value
    }
}

impl<T> Freeze for AssertFreeze<T> {}

impl<T> AssertFreeze<T> {
    /// Wraps `value`, asserting that a snapshot of it is meaningful.
    pub fn new(value: T) -> (r: Self)
        ensures
            r@ == value,
    {
        AssertFreeze { value }
    }

    /// Returns the wrapped value.
    pub fn into_inner(this: Self) -> (r: T)
        ensures
            r == this@,
    {
        this.value
    }

    /// A reference to the wrapped value.
    pub fn get(&self) -> (r: &T)
        ensures
            *r == self@,
    {
        &self.value
    }
}

} // verus!
