//! A one word bloom filter over keys known by their address, which falls back to a hash map
//! from addresses to offsets once the filter has overflowed.

use vstd::prelude::*;
use fxhash::FxHashMap;
use std::marker::PhantomData;
use crate::write_log::{address_bit, bloom_bit, calc_shift, shift_for};

verus! {

/// Whether a key may have been inserted into a filter.
#[derive(Copy, Clone, PartialEq, Eq, Structural, Debug)]
pub enum Contained {
    /// The key was certainly not inserted.
    No,
    /// The key may have been inserted.
    Maybe,
}

/// The answer of a single word filter for a single bit hash: `Maybe` iff the bit is set.
pub open spec fn filter_answer(filter: usize, hash: usize) -> Contained {
    if filter & hash != 0 {
        Contained::Maybe
    } else {
        Contained::No
    }
}

/// Facts about or-ing single bits into a filter word.
pub proof fn lemma_filter_bits(f: usize, g: usize, h: usize)
    by (bit_vector)
    ensures
        h != 0 ==> (f | h) & h != 0,
        f & g != 0 ==> (f | h) & g != 0,
        h != 0 ==> (f | h) != 0,
        (0usize & g) == 0,
{
}

/// The map from addresses to offsets holding nothing.
pub open spec fn no_offsets() -> Map<usize, usize> {
    Map::empty()
}

/// The filter word of a filter that has overflowed: every bit set.
pub const OVERFLOWED: usize = usize::MAX;

/// The overflowed word is the word with every bit set.
proof fn lemma_full_word()
    ensures
        !0usize == OVERFLOWED,
{
    let m = usize::MAX;
    assert(!0usize >= m) by (bit_vector);
}

/// The hasher of the overflow map.
#[verifier::external_type_specification]
#[verifier::external_body]
pub struct ExFxHasher(fxhash::FxHasher);

/// The builder of the hasher of the overflow map.
#[verifier::external_type_specification]
#[verifier::external_body]
#[verifier::reject_recursive_types(H)]
pub struct ExBuildHasherDefault<H>(std::hash::BuildHasherDefault<H>);

/// `std::ptr::from_ref(key).addr()`: the address of `key`. Nothing is stated of the result:
/// addresses differ between runs and are no function of the value.
#[verifier::external_body]
pub(crate) fn address_of<K>(key: &K) -> usize {
    std::ptr::from_ref(key).addr()
}

/// `<FxHashMap<usize, usize> as Default>::default`, a `std` `HashMap` built with the hasher of
/// `fxhash`: claimed to hold no entry.
#[verifier::external_body]
fn overflow_map_new() -> (r: FxHashMap<usize, usize>)
    ensures
        r@ == no_offsets(),
{
    FxHashMap::default()
}

/// `HashMap::clear` on the map with the `fxhash` hasher: claimed to leave no entry.
#[verifier::external_body]
fn overflow_map_clear(m: &mut FxHashMap<usize, usize>)
    ensures
        final(m)@ == no_offsets(),
{
    m.clear()
}

/// `HashMap::insert` on the map with the `fxhash` hasher: claimed to map `k` to `v`, leave the
/// other keys as they were, and return the value `k` had, if any. The hasher is deterministic,
/// so the entries do not depend on it.
#[verifier::external_body]
fn overflow_map_insert(m: &mut FxHashMap<usize, usize>, k: usize, v: usize) -> (r: Option<usize>)
    ensures
        final(m)@ == old(m)@.insert(k, v),
        r == (if old(m)@.contains_key(k) {
            Some(old(m)@[k])
        } else {
            None
        }),
{
    m.insert(k, v)
}

/// `HashMap::get` on the map with the `fxhash` hasher, the value copied out: claimed to return
/// the value of `k`, or `None` if the map has no entry for it.
#[verifier::external_body]
fn overflow_map_get(m: &FxHashMap<usize, usize>, k: usize) -> (r: Option<usize>)
    ensures
        r == (if m@.contains_key(k) {
            Some(m@[k])
        } else {
            None
        }),
{
    m.get(&k).copied()
}

/// Whether `h` has exactly one bit set.
pub open spec fn is_single_bit(h: usize) -> bool {
    h != 0 && h & ((h - 1) as usize) == 0
}

/// The single bit of `key` in a filter word, chosen by its address.
fn key_bit<K>(key: &K) -> (r: usize)
    ensures
        is_single_bit(r),
        exists|addr: usize, align: usize|
            align == vstd::layout::align_of::<K>() && r == #[trigger] address_bit(
                addr,
                shift_for(align),
            ),
{
    let raw = address_of(key);
    let align = core::mem::align_of::<K>();
    let shift = calc_shift(align);
    let b = bloom_bit(raw, shift);
    proof {
        assert(is_single_bit(1usize << ((raw >> shift) & ((usize::BITS - 1) as usize))))
            by (bit_vector);
    }
    b
}

/// Inserting the single bit `h` into the filter word `filter`: `Maybe` and no change if the bit
/// is already set or setting it would give the overflowed word, else `No` and the bit set.
pub open spec fn insert_step(filter: usize, h: usize) -> (Contained, usize) {
    if filter & h != 0 {
        (Contained::Maybe, filter)
    } else if filter | h != OVERFLOWED {
        (Contained::No, filter | h)
    } else {
        (Contained::Maybe, filter)
    }
}

/// A one word bloom filter over the keys of type `K`, by address, falling back to a map from
/// addresses to offsets.
#[derive(Debug)]
pub struct Bloom<'tcell, K> {
    filter: usize,
    overflow: FxHashMap<usize, usize>,
    phantom: PhantomData<&'tcell K>,
}

impl<'tcell, K> View for Bloom<'tcell, K> {
    type V = (usize, Map<usize, usize>);

    closed spec fn view(&self) -> (usize, Map<usize, usize>) {
        (self.filter, self.overflow@)
    }
}

impl<'tcell, K> Bloom<'tcell, K> {
    /// The map is only used once the filter has overflowed.
    pub open spec fn wf(&self) -> bool {
        self@.0 != OVERFLOWED ==> self@.1 == no_offsets()
    }

    /// An empty filter.
    pub fn new() -> (r: Self)
        ensures
            r.wf(),
            r@ == (0usize, no_offsets()),
    {
        Bloom { filter: 0, overflow: overflow_map_new(), phantom: PhantomData }
    }

    /// Whether the filter has overflowed into the map.
    fn has_overflowed(&self) -> (r: bool)
        ensures
            r == (self@.0 == OVERFLOWED),
    {
        self.filter == OVERFLOWED
    }

    /// Empties the filter and the map.
    pub fn clear(&mut self)
        requires
            old(self).wf(),
        ensures
            final(self).wf(),
            final(self)@ == (0usize, no_offsets()),
    {
        if self.has_overflowed() {
            overflow_map_clear(&mut self.overflow);
        }
        self.filter = 0;
    }

    /// Returns true if nothing was inserted.
    pub fn is_empty(&self) -> (r: bool)
        ensures
            r == (self@.0 == 0),
    {
        self.filter == 0
    }

    /// Whether `key` may have been inserted: `Maybe` iff its bit is set in the filter. An
    /// empty filter answers `No`, an overflowed one `Maybe`.
    pub fn contained(&self, key: &K) -> (r: Contained)
        ensures
            exists|h: usize| is_single_bit(h) && r == filter_answer(self@.0, h),
            self@.0 == 0 ==> r == Contained::No,
            self@.0 == OVERFLOWED ==> r == Contained::Maybe,
    {
        let bit = key_bit(key);
        proof {
            lemma_full_word();
            assert(bit != 0 ==> (0usize & bit) == 0 && ((!0usize) & bit) != 0) by (bit_vector);
        }
        if self.filter & bit != 0 {
            Contained::Maybe
        } else {
            Contained::No
        }
    }

    /// Inserts `key` into the filter, unless its bit is already set or setting it would make the
    /// filter look overflowed. On `Maybe` nothing was inserted: the caller must overflow.
    pub fn insert_inline(&mut self, key: &'tcell K) -> (r: Contained)
        requires
            old(self).wf(),
        ensures
            final(self).wf(),
            final(self)@.1 == old(self)@.1,
            exists|h: usize|
                is_single_bit(h) && (r, final(self)@.0) == #[trigger] insert_step(old(self)@.0, h),
            old(self)@.0 == OVERFLOWED ==> r == Contained::Maybe,
    {
        let filter = self.filter;
        let bit = key_bit(key);
        proof {
            lemma_full_word();
            assert(bit != 0 ==> ((!0usize) & bit) != 0) by (bit_vector);
        }
        let r = if filter & bit != 0 {
            Contained::Maybe
        } else {
            let new_filter = filter | bit;
            if new_filter != OVERFLOWED {
                self.filter = new_filter;
                Contained::No
            } else {
                Contained::Maybe
            }
        };
        proof {
            assert(is_single_bit(bit));
            assert((r, self@.0) == insert_step(old(self)@.0, bit));
        }
        r
    }

    /// Moves to the map, unless the filter already overflowed: the filter is set to the
    /// overflowed word and every key of `offsets` is mapped to its offset.
    pub fn to_overflow(&mut self, offsets: &[(&'tcell K, usize)])
        requires
            old(self).wf(),
        ensures
            final(self).wf(),
            final(self)@.0 == OVERFLOWED,
            old(self)@.0 == OVERFLOWED ==> final(self)@ == old(self)@,
            old(self)@.0 != OVERFLOWED ==> final(self)@.1.len() <= offsets@.len(),
            old(self)@.0 != OVERFLOWED ==> forall|a: usize|
                #[trigger] final(self)@.1.contains_key(a) ==> exists|i: int|
                    0 <= i < offsets@.len() && offsets@[i].1 == final(self)@.1[a],
    {
        if !self.has_overflowed() {
            self.run_overflow(offsets);
        }
    }

    fn run_overflow(&mut self, offsets: &[(&'tcell K, usize)])
        requires
            old(self)@.1 == no_offsets(),
        ensures
            final(self)@.0 == OVERFLOWED,
            final(self)@.1.len() <= offsets@.len(),
            forall|a: usize|
                #[trigger] final(self)@.1.contains_key(a) ==> exists|i: int|
                    0 <= i < offsets@.len() && offsets@[i].1 == final(self)@.1[a],
    {
        self.filter = OVERFLOWED;
        let mut i: usize = 0;
        while i < offsets.len()
            invariant
                i <= offsets@.len(),
                self@.0 == OVERFLOWED,
                self@.1.dom().finite(),
                self@.1.len() <= i,
                forall|a: usize|
                    #[trigger] self@.1.contains_key(a) ==> exists|j: int|
                        0 <= j < i && offsets@[j].1 == self@.1[a],
            decreases offsets@.len() - i,
        {
            let (key, offset) = offsets[i];
            let a = address_of(key);
            let ghost before = self@.1;
            let _ = overflow_map_insert(&mut self.overflow, a, offset);
            proof {
                assert forall|b: usize| #[trigger] self@.1.contains_key(b) implies exists|j: int|
                    0 <= j < i + 1 && offsets@[j].1 == self@.1[b] by {
                    if b == a {
                        assert(offsets@[i as int].1 == self@.1[b]);
                    } else {
                        let j = choose|j: int| 0 <= j < i && offsets@[j].1 == before[b];
                        assert(offsets@[j].1 == self@.1[b]);
                    }
                }
            }
            i = i + 1;
        }
    }

    /// The offset the map holds for `key`, which must be in the map. Once overflowed.
    pub fn overflow_get(&self, key: &K) -> (r: Option<usize>)
        requires
            self@.0 == OVERFLOWED,
        ensures
            r matches Some(v) ==> exists|a: usize| self@.1.contains_key(a) && self@.1[a] == v,
            self@.1 == no_offsets() ==> r is None,
    {
        overflow_map_get(&self.overflow, address_of(key))
    }

    /// Sets the offset of `key` in the map, returning the offset it had. Once overflowed.
    pub fn overflow_entry(&mut self, key: &'tcell K, offset: usize) -> (r: Option<usize>)
        requires
            old(self).wf(),
            old(self)@.0 == OVERFLOWED,
        ensures
            final(self).wf(),
            final(self)@.0 == OVERFLOWED,
            exists|a: usize|
                final(self)@.1 == old(self)@.1.insert(a, offset) && r == (if old(self)@.1.contains_key(
                    a,
                ) {
                    Some(old(self)@.1[a])
                } else {
                    None
                }),
    {
        let a = address_of(key);
        let r = overflow_map_insert(&mut self.overflow, a, offset);
        proof {
            assert(self@.1 == old(self)@.1.insert(a, offset));
        }
        r
    }
}

/// Once a key's bit was inserted, the filter answers `Maybe` for it until it is cleared, whatever
/// else is inserted: the filter has no false negatives.
pub proof fn law_inserted_bit_stays(filter: usize, h: usize, g: usize)
    requires
        h != 0,
    ensures
        filter_answer(filter | h, h) == Contained::Maybe,
        filter_answer(filter | h | g, h) == Contained::Maybe,
{
    lemma_filter_bits(filter, h, h);
    lemma_filter_bits(filter | h, h, g);
}

} // verus!
