//! A `TCell` seen through a transaction.

use vstd::prelude::*;
use crate::rw::{Read, RwTx, TxOrder};
use crate::tcell::{Ref, TCell, TValue};
use crate::tx::{Error, SetError};

verus! {

/// A `TCell` seen through a transaction.
#[derive(Debug)]
pub struct View<'tcell, 'tx, T: TValue, Tx> {
    /// The transaction the location is seen through.
    pub tx: &'tx mut Tx,
    /// The location.
    pub tcell: &'tcell TCell<T>,
}

impl<'tcell, 'tx, T: TValue, Tx: Read<'tcell>> View<'tcell, 'tx, T, Tx> {
    /// The transaction.
    pub closed spec fn tx_spec(&self) -> &Tx {
        &*self.tx
    }

    /// The location.
    pub closed spec fn tcell_spec(&self) -> &'tcell TCell<T> {
        self.tcell
    }

    /// Reads a snapshot of the value with the default ordering, consuming the view: as
    /// `TCell::borrow` with `ReadWrite` does, the read is logged in the transaction.
    pub fn into_borrow(self) -> (r: Result<Ref<'tcell, T>, Error>)
        requires
            self.tx_spec().read_ready(),
        ensures
            r matches Ok(v) ==> exists|w: Seq<usize>|
                w.len() == T::words_spec() && v.snapshot_spec() == T::decode(w)
                    && final(self.tx).read_recorded(
                    self.tx_spec(),
                    self.tcell_spec().erased_spec(),
                    TxOrder::ReadWrite,
                    w,
                ),
            r matches Ok(v) ==> exists|w: Seq<usize>|
                #[trigger] self.tx_spec().read_from(
                    self.tcell_spec().erased_spec(),
                    self.tcell_spec().value_spec(),
                    w,
                ) && v.snapshot_spec() == T::decode(w),
    {
        self.tcell.borrow(self.tx, TxOrder::ReadWrite)
    }

    /// Reads a copy of the value with the default ordering.
    pub fn get(&mut self) -> (r: Result<T, Error>)
        requires
            old(self).tx_spec().read_ready(),
        ensures
            final(self).tx_spec().read_ready(),
            final(self).tcell_spec() == old(self).tcell_spec(),
            r matches Ok(v) ==> exists|w: Seq<usize>| w.len() == T::words_spec() && v == T::decode(w),
            r matches Ok(v) ==> exists|w: Seq<usize>|
                #[trigger] old(self).tx_spec().read_from(
                    old(self).tcell_spec().erased_spec(),
                    old(self).tcell_spec().value_spec(),
                    w,
                ) && v == T::decode(w),
    {
        self.get_ordered(TxOrder::ReadWrite)
    }

    /// Reads a copy of the value with the given ordering.
    pub fn get_ordered(&mut self, ordering: TxOrder) -> (r: Result<T, Error>)
        requires
            old(self).tx_spec().read_ready(),
        ensures
            final(self).tx_spec().read_ready(),
            final(self).tcell_spec() == old(self).tcell_spec(),
            r matches Ok(v) ==> exists|w: Seq<usize>| w.len() == T::words_spec() && v == T::decode(w),
            r matches Ok(v) ==> exists|w: Seq<usize>|
                #[trigger] old(self).tx_spec().read_from(
                    old(self).tcell_spec().erased_spec(),
                    old(self).tcell_spec().value_spec(),
                    w,
                ) && v == T::decode(w),
    {
        let ghost before = *self.tx;
        proof {
            assert(before == *old(self).tx_spec());
        }
        let r = self.tcell.get(self.tx, ordering);
        proof {
            if r is Ok {
                let v = r->Ok_0;
                let w = choose|w: Seq<usize>|
                    #[trigger] before.read_from(self.tcell.erased_spec(), self.tcell.value_spec(), w)
                        && v == T::decode(w);
                assert(old(self).tx_spec().read_from(
                    old(self).tcell_spec().erased_spec(),
                    old(self).tcell_spec().value_spec(),
                    w,
                ));
            }
        }
        r
    }

    /// Reads a snapshot of the value with the default ordering.
    pub fn borrow(&mut self) -> (r: Result<Ref<'tcell, T>, Error>)
        requires
            old(self).tx_spec().read_ready(),
        ensures
            final(self).tx_spec().read_ready(),
            final(self).tcell_spec() == old(self).tcell_spec(),
            r matches Ok(v) ==> exists|w: Seq<usize>| w.len() == T::words_spec() && v.snapshot_spec() == T::decode(w),
            r matches Ok(v) ==> exists|w: Seq<usize>|
                #[trigger] old(self).tx_spec().read_from(
                    old(self).tcell_spec().erased_spec(),
                    old(self).tcell_spec().value_spec(),
                    w,
                ) && v.snapshot_spec() == T::decode(w),
    {
        self.borrow_ordered(TxOrder::ReadWrite)
    }

    /// Reads a snapshot of the value with the given ordering.
    pub fn borrow_ordered(&mut self, ordering: TxOrder) -> (r: Result<Ref<'tcell, T>, Error>)
        requires
            old(self).tx_spec().read_ready(),
        ensures
            final(self).tx_spec().read_ready(),
            final(self).tcell_spec() == old(self).tcell_spec(),
            r matches Ok(v) ==> exists|w: Seq<usize>| w.len() == T::words_spec() && v.snapshot_spec() == T::decode(w),
            r matches Ok(v) ==> exists|w: Seq<usize>|
                #[trigger] old(self).tx_spec().read_from(
                    old(self).tcell_spec().erased_spec(),
                    old(self).tcell_spec().value_spec(),
                    w,
                ) && v.snapshot_spec() == T::decode(w),
    {
        let ghost before = *self.tx;
        proof {
            assert(before == *old(self).tx_spec());
        }
        let r = self.tcell.borrow(self.tx, ordering);
        proof {
            if r is Ok {
                let v = r->Ok_0;
                let w = choose|w: Seq<usize>|
                    #[trigger] before.read_from(self.tcell.erased_spec(), self.tcell.value_spec(), w)
                        && v.snapshot_spec() == T::decode(w);
                assert(old(self).tx_spec().read_from(
                    old(self).tcell_spec().erased_spec(),
                    old(self).tcell_spec().value_spec(),
                    w,
                ));
            }
        }
        r
    }
}

impl<'tcell, 'tx, T: TValue, G> View<'tcell, 'tx, T, RwTx<'tcell, G>> {
    /// Sets the value, as `TCell::set` does.
    pub fn set(&mut self, value: T) -> (r: Result<(), SetError<T>>)
        requires
            old(self).tx_spec().wf(),
        ensures
            final(self).tx_spec().wf(),
            final(self).tcell_spec() == old(self).tcell_spec(),
            r matches Err(e) ==> e.value == value && *final(self).tx_spec() == *old(self).tx_spec(),
            r is Ok ==> final(self).tx_spec().holds_write(
                final(self).tcell_spec().erased_spec(),
                T::encode(value),
            ),
    {
        self.tcell.set(self.tx, value)
    }
}

impl<T: TValue> TCell<T> {
    /// A view of the location through the transaction `tx`.
    pub fn view<'tcell, 'tx, Tx: Read<'tcell>>(&'tcell self, tx: &'tx mut Tx) -> (r: View<
        'tcell,
        'tx,
        T,
        Tx,
    >)
        ensures
            r.tcell_spec() == self,
            *r.tx_spec() == *old(tx),
    {
        View { tx, tcell: self }
    }
}

} // verus!
