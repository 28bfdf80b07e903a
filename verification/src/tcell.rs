//! The transactional memory location, `TCell`.
//!
//! A `TCell` holds its value as machine words, each an atomic, next to the epoch lock that
//! records when the value was last written. A value type says how it is laid out in words.

use vstd::prelude::*;
use std::marker::PhantomData;
use std::sync::atomic::AtomicUsize;
use crate::epoch::{loaded_from, valid_read};
use crate::rw::{found_entry, set_fits, Read, RwTx, TxOrder};
use crate::tcell_erased::TCellErased;
use crate::tx::{Error, SetError};

verus! {

/// A value that a `TCell` can hold, laid out as a fixed number of machine words.
pub trait TValue: Sized {
    /// The words of `v`.
    spec fn encode(v: Self) -> Seq<usize>;

    /// The value held by `words`.
    spec fn decode(words: Seq<usize>) -> Self;

    /// The number of words of every value.
    spec fn words_spec() -> nat;

    /// Decoding the words of a value gives the value back.
    proof fn lemma_round_trip(v: Self)
        ensures
            Self::decode(Self::encode(v)) == v,
            Self::encode(v).len() == Self::words_spec(),
    ;

    /// The number of words of every value.
    fn word_count() -> (r: usize)
        ensures
            r == Self::words_spec(),
    ;

    /// The words of `self`.
    fn to_words(&self) -> (r: Vec<usize>)
        ensures
            r@ == Self::encode(*self),
    ;

    /// The value held by `words`.
    fn from_words(words: &[usize]) -> (r: Self)
        requires
            words@.len() == Self::words_spec(),
        ensures
            r == Self::decode(words@),
    ;
}

impl TValue for usize {
    open spec fn encode(v: Self) -> Seq<usize> {
        seq![v]
    }

    open spec fn decode(words: Seq<usize>) -> Self {
        words[0]
    }

    open spec fn words_spec() -> nat {
        1
    }

    proof fn lemma_round_trip(v: Self) {
    }

    fn word_count() -> (r: usize) {
        1
    }

    fn to_words(&self) -> (r: Vec<usize>) {
        vec![*self]
    }

    fn from_words(words: &[usize]) -> (r: Self) {
        words[0]
    }
}

impl TValue for u32 {
    open spec fn encode(v: Self) -> Seq<usize> {
        seq![v as usize]
    }

    open spec fn decode(words: Seq<usize>) -> Self {
        words[0] as u32
    }

    open spec fn words_spec() -> nat {
        1
    }

    proof fn lemma_round_trip(v: Self) {
    }

    fn word_count() -> (r: usize) {
        1
    }

    fn to_words(&self) -> (r: Vec<usize>) {
        vec![*self as usize]
    }

    fn from_words(words: &[usize]) -> (r: Self) {
        words[0] as u32
    }
}

impl TValue for u8 {
    open spec fn encode(v: Self) -> Seq<usize> {
        seq![v as usize]
    }

    open spec fn decode(words: Seq<usize>) -> Self {
        words[0] as u8
    }

    open spec fn words_spec() -> nat {
        1
    }

    proof fn lemma_round_trip(v: Self) {
    }

    fn word_count() -> (r: usize) {
        1
    }

    fn to_words(&self) -> (r: Vec<usize>) {
        vec![*self as usize]
    }

    fn from_words(words: &[usize]) -> (r: Self) {
        words[0] as u8
    }
}

impl TValue for i32 {
    open spec fn encode(v: Self) -> Seq<usize> {
        seq![v as usize]
    }

    open spec fn decode(words: Seq<usize>) -> Self {
        words[0] as i32
    }

    open spec fn words_spec() -> nat {
        1
    }

    proof fn lemma_round_trip(v: Self) {
        assert((v as usize) as i32 == v) by (bit_vector);
    }

    fn word_count() -> (r: usize) {
        1
    }

    fn to_words(&self) -> (r: Vec<usize>) {
        vec![*self as usize]
    }

    fn from_words(words: &[usize]) -> (r: Self) {
        words[0] as i32
    }
}

impl TValue for isize {
    open spec fn encode(v: Self) -> Seq<usize> {
        seq![v as usize]
    }

    open spec fn decode(words: Seq<usize>) -> Self {
        words[0] as isize
    }

    open spec fn words_spec() -> nat {
        1
    }

    proof fn lemma_round_trip(v: Self) {
        assert((v as usize) as isize == v) by (bit_vector);
    }

    fn word_count() -> (r: usize) {
        1
    }

    fn to_words(&self) -> (r: Vec<usize>) {
        vec![*self as usize]
    }

    fn from_words(words: &[usize]) -> (r: Self) {
        words[0] as isize
    }
}

impl TValue for bool {
    open spec fn encode(v: Self) -> Seq<usize> {
        seq![if v { 1usize } else { 0usize }]
    }

    open spec fn decode(words: Seq<usize>) -> Self {
        words[0] != 0
    }

    open spec fn words_spec() -> nat {
        1
    }

    proof fn lemma_round_trip(v: Self) {
    }

    fn word_count() -> (r: usize) {
        1
    }

    fn to_words(&self) -> (r: Vec<usize>) {
        vec![if *self { 1usize } else { 0usize }]
    }

    fn from_words(words: &[usize]) -> (r: Self) {
        words[0] != 0
    }
}

impl TValue for u16 {
    open spec fn encode(v: Self) -> Seq<usize> {
        seq![v as usize]
    }

    open spec fn decode(words: Seq<usize>) -> Self {
        words[0] as u16
    }

    open spec fn words_spec() -> nat {
        1
    }

    proof fn lemma_round_trip(v: Self) {
        assert((v as usize) as u16 == v) by (bit_vector);
    }

    fn word_count() -> (r: usize) {
        1
    }

    fn to_words(&self) -> (r: Vec<usize>) {
        vec![*self as usize]
    }

    fn from_words(words: &[usize]) -> (r: Self) {
        words[0] as u16
    }
}

impl TValue for i16 {
    open spec fn encode(v: Self) -> Seq<usize> {
        seq![v as usize]
    }

    open spec fn decode(words: Seq<usize>) -> Self {
        words[0] as i16
    }

    open spec fn words_spec() -> nat {
        1
    }

    proof fn lemma_round_trip(v: Self) {
        assert((v as usize) as i16 == v) by (bit_vector);
    }

    fn word_count() -> (r: usize) {
        1
    }

    fn to_words(&self) -> (r: Vec<usize>) {
        vec![*self as usize]
    }

    fn from_words(words: &[usize]) -> (r: Self) {
        words[0] as i16
    }
}

impl TValue for i8 {
    open spec fn encode(v: Self) -> Seq<usize> {
        seq![v as usize]
    }

    open spec fn decode(words: Seq<usize>) -> Self {
        words[0] as i8
    }

    open spec fn words_spec() -> nat {
        1
    }

    proof fn lemma_round_trip(v: Self) {
        assert((v as usize) as i8 == v) by (bit_vector);
    }

    fn word_count() -> (r: usize) {
        1
    }

    fn to_words(&self) -> (r: Vec<usize>) {
        vec![*self as usize]
    }

    fn from_words(words: &[usize]) -> (r: Self) {
        words[0] as i8
    }
}

/// The low half of a 64 bit word, as a machine word on every platform.
pub open spec fn low_half(v: u64) -> usize {
    (v & 0xffff_ffffu64) as usize
}

/// The high half of a 64 bit word, as a machine word on every platform.
pub open spec fn high_half(v: u64) -> usize {
    (v >> 32u64) as usize
}

/// The 64 bit word made of two halves, each taken from the low 32 bits of a machine word.
pub open spec fn from_halves(low: usize, high: usize) -> u64 {
    ((low as u64) & 0xffff_ffffu64) | (((high as u64) & 0xffff_ffffu64) << 32u64)
}

proof fn lemma_halves(v: u64)
    ensures
        from_halves(low_half(v), high_half(v)) == v,
{
    assert(((((v & 0xffff_ffffu64) as usize) as u64) & 0xffff_ffffu64) | (((((v >> 32u64) as usize)
        as u64) & 0xffff_ffffu64) << 32u64) == v) by (bit_vector);
}

/// Splits a 64 bit word into its two halves.
fn halves_of(v: u64) -> (r: Vec<usize>)
    ensures
        r@ == seq![low_half(v), high_half(v)],
{
    vec![(v & 0xffff_ffffu64) as usize, (v >> 32u64) as usize]
}

/// Joins two halves into a 64 bit word.
fn join_halves(low: usize, high: usize) -> (r: u64)
    ensures
        r == from_halves(low, high),
{
    ((low as u64) & 0xffff_ffffu64) | (((high as u64) & 0xffff_ffffu64) << 32u64)
}

impl TValue for u64 {
    open spec fn encode(v: Self) -> Seq<usize> {
        seq![low_half(v), high_half(v)]
    }

    open spec fn decode(words: Seq<usize>) -> Self {
        from_halves(words[0], words[1])
    }

    open spec fn words_spec() -> nat {
        2
    }

    proof fn lemma_round_trip(v: Self) {
        lemma_halves(v);
    }

    fn word_count() -> (r: usize) {
        2
    }

    fn to_words(&self) -> (r: Vec<usize>) {
        halves_of(*self)
    }

    fn from_words(words: &[usize]) -> (r: Self) {
        join_halves(words[0], words[1])
    }
}

impl TValue for i64 {
    open spec fn encode(v: Self) -> Seq<usize> {
        seq![low_half(v as u64), high_half(v as u64)]
    }

    open spec fn decode(words: Seq<usize>) -> Self {
        from_halves(words[0], words[1]) as i64
    }

    open spec fn words_spec() -> nat {
        2
    }

    proof fn lemma_round_trip(v: Self) {
        lemma_halves(v as u64);
        assert(((v as u64) as i64) == v) by (bit_vector);
    }

    fn word_count() -> (r: usize) {
        2
    }

    fn to_words(&self) -> (r: Vec<usize>) {
        halves_of(*self as u64)
    }

    fn from_words(words: &[usize]) -> (r: Self) {
        join_halves(words[0], words[1]) as i64
    }
}

/// A transactional memory location holding a `T`.
#[derive(Debug)]
pub struct TCell<T: TValue> {
    value: Vec<AtomicUsize>,
    erased: TCellErased,
    _marker: PhantomData<T>,
}

impl<T: TValue> TCell<T> {
    /// The value has the words of a `T`.
    #[verifier::type_invariant]
    spec fn well_formed(self) -> bool {
        self.value@.len() == T::words_spec()
    }

    /// The epoch lock part of the location.
    pub closed spec fn erased_spec(&self) -> &TCellErased {
        &self.erased
    }

    /// The words holding the value.
    pub closed spec fn value_spec(&self) -> Seq<AtomicUsize> {
        self.value@
    }

    /// A location holding `value`, last written at the beginning of time. This does not
    /// perform any synchronization.
    pub fn new(value: T) -> (r: TCell<T>) {
        let words = value.to_words();
        proof {
            T::lemma_round_trip(value);
        }
        let mut cells: Vec<AtomicUsize> = Vec::new();
        let mut i: usize = 0;
        while i < words.len()
            invariant
                i <= words@.len(),
                cells@.len() == i,
            decreases words@.len() - i,
        {
            cells.push(AtomicUsize::new(words[i]));
            i = i + 1;
        }
        TCell { value: cells, erased: TCellErased::new(), _marker: PhantomData }
    }

    /// Reads the words of the value, each with acquire ordering.
    pub fn optimistic_read(&self) -> (r: Vec<usize>)
        ensures
            r@.len() == T::words_spec(),
            words_loaded(self.value_spec(), r@),
    {
        proof {
            use_type_invariant(self);
        }
        read_words(self.value.as_slice())
    }

    /// Consumes the location, returning the value it holds.
    pub fn into_inner(self) -> (r: T)
        ensures
            exists|w: Seq<usize>| w.len() == T::words_spec() && r == T::decode(w),
            exists|w: Seq<usize>| #[trigger] words_loaded(self.value_spec(), w) && r == T::decode(w),
    {
        let words = self.optimistic_read();
        T::from_words(words.as_slice())
    }

    /// The epoch lock part of the location.
    pub fn erased(&self) -> (r: &TCellErased)
        ensures
            r == self.erased_spec(),
    {
        &self.erased
    }

    /// The words holding the value.
    pub fn target(&self) -> (r: &[AtomicUsize])
        ensures
            r@.len() == T::words_spec(),
            r@ == self.value_spec(),
    {
        proof {
            use_type_invariant(self);
        }
        self.value.as_slice()
    }

    /// Reads a snapshot of the value inside a transaction, with the given ordering.
    pub fn borrow<'tcell, Tx: Read<'tcell>>(&'tcell self, tx: &mut Tx, ordering: TxOrder) -> (r:
        Result<Ref<'tcell, T>, Error>)
        requires
            old(tx).read_ready(),
        ensures
            final(tx).read_ready(),
            r matches Ok(v) ==> exists|w: Seq<usize>|
                w.len() == T::words_spec() && v.snapshot_spec() == T::decode(w)
                    && final(tx).read_recorded(old(tx), self.erased_spec(), ordering, w),
            r matches Ok(v) ==> exists|w: Seq<usize>|
                #[trigger] old(tx).read_from(self.erased_spec(), self.value_spec(), w)
                    && v.snapshot_spec() == T::decode(w),
            exists|word: usize, found: Option<usize>|
                (r is Ok) == #[trigger] old(tx).read_allowed(
                    self.erased_spec(),
                    T::words_spec(),
                    ordering,
                    word,
                    found,
                ),
            exists|word: usize, found: Option<usize>|
                #![trigger loaded_from(&self.erased_spec().current_epoch, word), old(tx).read_allowed(self.erased_spec(), T::words_spec(), ordering, word, found)]
                loaded_from(&self.erased_spec().current_epoch, word) && (r is Ok) == old(
                    tx,
                ).read_allowed(self.erased_spec(), T::words_spec(), ordering, word, found),
    {
        let v = self.get(tx, ordering)?;
        Ok(Ref::new(v))
    }

    /// Reads a copy of the value inside a transaction, with the given ordering.
    pub fn get<'tcell, Tx: Read<'tcell>>(&'tcell self, tx: &mut Tx, ordering: TxOrder) -> (r:
        Result<T, Error>)
        requires
            old(tx).read_ready(),
        ensures
            final(tx).read_ready(),
            r matches Ok(v) ==> exists|w: Seq<usize>|
                w.len() == T::words_spec() && v == T::decode(w) && final(tx).read_recorded(
                    old(tx),
                    self.erased_spec(),
                    ordering,
                    w,
                ),
            r matches Ok(v) ==> exists|w: Seq<usize>|
                #[trigger] old(tx).read_from(self.erased_spec(), self.value_spec(), w) && v
                    == T::decode(w),
            exists|word: usize, found: Option<usize>|
                (r is Ok) == #[trigger] old(tx).read_allowed(
                    self.erased_spec(),
                    T::words_spec(),
                    ordering,
                    word,
                    found,
                ),
            exists|word: usize, found: Option<usize>|
                #![trigger loaded_from(&self.erased_spec().current_epoch, word), old(tx).read_allowed(self.erased_spec(), T::words_spec(), ordering, word, found)]
                loaded_from(&self.erased_spec().current_epoch, word) && (r is Ok) == old(
                    tx,
                ).read_allowed(self.erased_spec(), T::words_spec(), ordering, word, found),
    {
        proof {
            use_type_invariant(self);
        }
        let target = self.value.as_slice();
        assert(target@.len() == T::words_spec());
        let ghost before = *tx;
        let read = tx.borrow_words(&self.erased, target, ordering);
        proof {
            let (word, found) = choose|word: usize, found: Option<usize>|
                (read is Ok) == #[trigger] before.read_allowed(
                    &self.erased,
                    target@.len(),
                    ordering,
                    word,
                    found,
                );
            assert((read is Ok) == before.read_allowed(
                self.erased_spec(),
                T::words_spec(),
                ordering,
                word,
                found,
            ));
            let (word2, found2) = choose|word: usize, found: Option<usize>|
                #![trigger loaded_from(&self.erased.current_epoch, word), before.read_allowed(&self.erased, target@.len(), ordering, word, found)]
                loaded_from(&self.erased.current_epoch, word) && (read is Ok) == before.read_allowed(
                    &self.erased,
                    target@.len(),
                    ordering,
                    word,
                    found,
                );
            assert(loaded_from(&self.erased_spec().current_epoch, word2) && (read is Ok)
                == before.read_allowed(self.erased_spec(), T::words_spec(), ordering, word2, found2));
        }
        match read {
            Ok(words) => {
                proof {
                    assert(target@ == self.value_spec());
                    assert(before.read_from(self.erased_spec(), self.value_spec(), words@));
                }
                Ok(T::from_words(words.as_slice()))
            },
            Err(e) => Err(e),
        }
    }


    /// Sets the value inside a read write transaction. If another thread wrote the location
    /// during the transaction (or the log cannot hold the write), nothing is set and the value
    /// comes back in the error.
    pub fn set<'tcell, G>(&'tcell self, tx: &mut RwTx<'tcell, G>, value: T) -> (r: Result<
        (),
        SetError<T>,
    >)
        requires
            old(tx).wf(),
        ensures
            final(tx).wf(),
            r matches Err(e) ==> e.value == value && *final(tx) == *old(tx),
            r is Ok ==> final(tx).holds_write(self.erased_spec(), T::encode(value)),
            exists|found: Option<usize>, w: usize|
                #![trigger set_fits(old(tx).logs_spec().write_log, found, valid_read(old(tx).pin_epoch_spec(), w), T::encode(value).len())]
                found_entry(old(tx).logs_spec().write_log, self.erased_spec(), found) && (r is Ok)
                    == set_fits(
                    old(tx).logs_spec().write_log,
                    found,
                    valid_read(old(tx).pin_epoch_spec(), w),
                    T::encode(value).len(),
                ),
    {
        proof {
            use_type_invariant(self);
            T::lemma_round_trip(value);
        }
        let words = value.to_words();
        match tx.set_words(&self.erased, self.value.as_slice(), words) {
            Ok(()) => Ok(()),
            Err(_) => Err(SetError { value, error: Error::conflict() }),
        }
    }

    /// Replaces the value inside a read write transaction, returning the previous one.
    pub fn replace<'tcell, G>(&'tcell self, tx: &mut RwTx<'tcell, G>, value: T) -> (r: Result<
        T,
        SetError<T>,
    >)
        requires
            old(tx).wf(),
        ensures
            final(tx).wf(),
            r is Ok ==> final(tx).holds_write(self.erased_spec(), T::encode(value)),
            r matches Err(e) ==> e.value == value,
    {
        proof {
            use_type_invariant(self);
        }
        let prev = match self.get(tx, TxOrder::Read) {
            Ok(v) => v,
            Err(error) => return Err(SetError { value, error }),
        };
        match self.set(tx, value) {
            Ok(()) => Ok(prev),
            Err(e) => Err(e),
        }
    }
}

/// A snapshot of a `TCell`'s value, valid for the duration of the transaction that read it.
#[derive(Debug, PartialEq, Eq, Hash)]
pub struct Ref<'tx, T> {
    snapshot: T,
    lifetime: PhantomData<&'tx T>,
}

impl<'tx, T> Ref<'tx, T> {
    /// The value of the snapshot.
    pub closed spec fn snapshot_spec(&self) -> T {
        self.snapshot
    }

    /// A snapshot holding `snapshot`.
    pub fn new(snapshot: T) -> (r: Self)
        ensures
            r.snapshot_spec() == snapshot,
    {
        Ref { snapshot, lifetime: PhantomData }
    }

    /// The value of the snapshot.
    pub fn get(&self) -> (r: &T)
        ensures
            *r == self.snapshot_spec(),
    {
        &self.snapshot
    }

    /// Consumes the snapshot, returning its value.
    pub fn into_inner(self) -> (r: T)
        ensures
            r == self.snapshot_spec(),
    {
        self.snapshot
    }
}

/// Loads every word of `words`, with acquire ordering.
pub fn read_words(words: &[AtomicUsize]) -> (r: Vec<usize>)
    ensures
        r@.len() == words@.len(),
        words_loaded(words@, r@),
{
    let mut result: Vec<usize> = Vec::new();
    let mut i: usize = 0;
    while i < words.len()
        invariant
            i <= words@.len(),
            result@.len() == i,
            forall|j: int| 0 <= j < i ==> #[trigger] word_loaded(&words@[j], result@[j]),
        decreases words@.len() - i,
    {
        let v = load_acquire(&words[i]);
        proof {
            assert(word_loaded(&words@[i as int], v));
        }
        result.push(v);
        i = i + 1;
    }
    result
}

/// Loads a word with acquire ordering.
fn load_acquire(word: &AtomicUsize) -> usize {
    word.load(std::sync::atomic::Ordering::Acquire)
}

/// Whether `v` is a value that loading `word` gave.
pub closed spec fn word_loaded(word: &AtomicUsize, v: usize) -> bool {
    call_ensures(load_acquire, (word,), v)
}

/// Whether `values` holds, in order, a value loaded from each of `words`.
pub open spec fn words_loaded(words: Seq<AtomicUsize>, values: Seq<usize>) -> bool {
    &&& values.len() == words.len()
    &&& forall|j: int| 0 <= j < values.len() ==> #[trigger] word_loaded(&words[j], values[j])
}

} // verus!
