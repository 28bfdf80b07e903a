//! Statistics collection: size distributions and event counters, kept per thread and merged
//! into a global summary.

use vstd::prelude::*;

verus! {

/// The minimum, maximum and total of recorded sizes.
#[derive(Copy, Clone, Debug, PartialEq, Eq, Structural)]
pub struct MinMaxTotal {
    pub min: u64,
    pub max: u64,
    pub total: u64,
}

/// The summary after recording `size` into `prev`.
pub open spec fn recorded(prev: Option<MinMaxTotal>, size: u64) -> Option<MinMaxTotal> {
    match prev {
        None => Some(MinMaxTotal { min: size, max: size, total: size }),
        Some(m) => Some(
            MinMaxTotal {
                min: if size < m.min { size } else { m.min },
                max: if size > m.max { size } else { m.max },
                total: (m.total + size) as u64,
            },
        ),
    }
}

/// The summary of two merged distributions.
pub open spec fn merged_summary(a: Option<MinMaxTotal>, b: Option<MinMaxTotal>) -> Option<
    MinMaxTotal,
> {
    match (a, b) {
        (Some(x), Some(y)) => Some(
            MinMaxTotal {
                min: if x.min < y.min { x.min } else { y.min },
                max: if x.max > y.max { x.max } else { y.max },
                total: (x.total + y.total) as u64,
            },
        ),
        (Some(x), None) => Some(x),
        (None, y) => y,
    }
}

/// The summary after recording each of `sizes` in order into `prev`.
pub open spec fn recorded_all(prev: Option<MinMaxTotal>, sizes: Seq<u64>) -> Option<MinMaxTotal>
    decreases sizes.len(),
{
    if sizes.len() == 0 {
        prev
    } else {
        recorded(recorded_all(prev, sizes.drop_last()), sizes.last())
    }
}

/// The sum of `sizes`.
pub open spec fn total_of(sizes: Seq<u64>) -> int
    decreases sizes.len(),
{
    if sizes.len() == 0 {
        0
    } else {
        total_of(sizes.drop_last()) + sizes.last()
    }
}

proof fn lemma_recorded_total(sizes: Seq<u64>)
    requires
        total_of(sizes) <= u64::MAX,
    ensures
        recorded_all(None, sizes) matches Some(m) ==> m.total == total_of(sizes),
        sizes.len() > 0 ==> recorded_all(None, sizes) is Some,
    decreases sizes.len(),
{
    if sizes.len() > 0 {
        lemma_recorded_total(sizes.drop_last());
    }
}

/// Merging the summaries of two recorded sequences of sizes gives the summary of recording
/// both, one after the other, as long as their total fits in a `u64`.
pub proof fn law_merge_of_records(a: Seq<u64>, b: Seq<u64>)
    requires
        total_of(a + b) <= u64::MAX,
    ensures
        merged_summary(recorded_all(None, a), recorded_all(None, b)) == recorded_all(None, a + b),
    decreases b.len(),
{
    if b.len() == 0 {
        assert(a + b =~= a);
    } else {
        let b1 = b.drop_last();
        let s = b.last();
        assert((a + b).drop_last() =~= a + b1);
        assert((a + b).last() == s);
        lemma_total_prefix(a + b);
        law_merge_of_records(a, b1);
        lemma_total_concat(a, b1);
        lemma_total_concat(a, b);
        lemma_total_nonneg(b);
        lemma_total_nonneg(a);
        lemma_recorded_total(a);
        lemma_recorded_total(b1);
    }
}

proof fn lemma_total_prefix(s: Seq<u64>)
    requires
        s.len() > 0,
    ensures
        total_of(s.drop_last()) <= total_of(s),
{
}

proof fn lemma_total_nonneg(s: Seq<u64>)
    ensures
        total_of(s) >= 0,
    decreases s.len(),
{
    if s.len() > 0 {
        lemma_total_nonneg(s.drop_last());
    }
}

proof fn lemma_total_concat(a: Seq<u64>, b: Seq<u64>)
    ensures
        total_of(a + b) == total_of(a) + total_of(b),
    decreases b.len(),
{
    if b.len() == 0 {
        assert(a + b =~= a);
    } else {
        assert((a + b).drop_last() =~= a + b.drop_last());
        lemma_total_concat(a, b.drop_last());
    }
}

/// A distribution of sizes: how many were recorded, and their minimum, maximum and total.
#[derive(Debug)]
pub struct Size {
    min_max_total: Option<MinMaxTotal>,
    count: u64,
}

impl View for Size {
    type V = (nat, Option<MinMaxTotal>);

    closed spec fn view(&self) -> (nat, Option<MinMaxTotal>) {
        (self.count as nat, self.min_max_total)
    }
}

/// Whether the two distributions can be merged without overflow.
pub open spec fn sizes_mergeable(a: (nat, Option<MinMaxTotal>), b: (nat, Option<MinMaxTotal>)) -> bool {
    &&& a.0 + b.0 <= u64::MAX
    &&& match (a.1, b.1) {
        (Some(x), Some(y)) => x.total + y.total <= u64::MAX,
        _ => true,
    }
}

impl Size {
    /// An empty distribution.
    pub fn new() -> (r: Size)
        ensures
            r@ == (0nat, None::<MinMaxTotal>),
    {
        Size { min_max_total: None, count: 0 }
    }

    /// Records one size. The count and the total must not overflow.
    pub fn record(&mut self, size: u64)
        requires
            old(self)@.0 < u64::MAX,
            old(self)@.1 matches Some(m) ==> m.total + size <= u64::MAX,
        ensures
            final(self)@ == (old(self)@.0 + 1, recorded(old(self)@.1, size)),
    {
        self.count = self.count + 1;
        match self.min_max_total {
            Some(m) => {
                self.min_max_total = Some(
                    MinMaxTotal {
                        min: if size < m.min { size } else { m.min },
                        max: if size > m.max { size } else { m.max },
                        total: m.total + size,
                    },
                );
            },
            None => {
                self.min_max_total = Some(MinMaxTotal { min: size, max: size, total: size });
            },
        }
    }

    /// Merges `rhs` into `self`.
    pub fn merge(&mut self, rhs: &Self)
        requires
            sizes_mergeable(old(self)@, rhs@),
        ensures
            final(self)@ == (old(self)@.0 + rhs@.0, merged_summary(old(self)@.1, rhs@.1)),
    {
        self.count = self.count + rhs.count;
        self.min_max_total = match (self.min_max_total, rhs.min_max_total) {
            (Some(a), Some(b)) => Some(
                MinMaxTotal {
                    min: if a.min < b.min { a.min } else { b.min },
                    max: if a.max > b.max { a.max } else { b.max },
                    total: a.total + b.total,
                },
            ),
            (Some(a), None) => Some(a),
            (None, b) => b,
        };
    }

    /// Whether `rhs` can be merged into `self` without overflow.
    pub fn can_merge(&self, rhs: &Self) -> (r: bool)
        ensures
            r == sizes_mergeable(self@, rhs@),
    {
        if self.count.checked_add(rhs.count).is_none() {
            return false;
        }
        match (self.min_max_total, rhs.min_max_total) {
            (Some(a), Some(b)) => a.total.checked_add(b.total).is_some(),
            _ => true,
        }
    }

    /// The number of recorded sizes.
    pub fn count(&self) -> (r: u64)
        ensures
            r == self@.0,
    {
        self.count
    }

    /// The minimum, maximum and total of the recorded sizes, if any was recorded.
    pub fn min_max_total(&self) -> (r: Option<MinMaxTotal>)
        ensures
            r == self@.1,
    {
        self.min_max_total
    }
}

/// A counter of events.
#[derive(Debug)]
pub struct Event {
    count: usize,
}

impl View for Event {
    type V = nat;

    closed spec fn view(&self) -> nat {
        self.count as nat
    }
}

impl Event {
    /// A counter at zero.
    pub fn new() -> (r: Event)
        ensures
            r@ == 0,
    {
        Event { count: 0 }
    }

    /// Counts one event.
    pub fn happened(&mut self)
        requires
            old(self)@ < usize::MAX,
        ensures
            final(self)@ == old(self)@ + 1,
    {
        self.count = self.count + 1
    }

    /// Adds the events of `rhs`.
    pub fn merge(&mut self, rhs: &Self)
        requires
            old(self)@ + rhs@ <= usize::MAX,
        ensures
            final(self)@ == old(self)@ + rhs@,
    {
        self.count = self.count + rhs.count
    }

    /// Whether `rhs` can be merged into `self` without overflow.
    pub fn can_merge(&self, rhs: &Self) -> (r: bool)
        ensures
            r == (self@ + rhs@ <= usize::MAX),
    {
        self.count.checked_add(rhs.count).is_some()
    }

    /// The number of events.
    pub fn count(&self) -> (r: usize)
        ensures
            r == self@,
    {
        self.count
    }
}

/// A collection of statistics.
#[derive(Debug)]
pub struct Stats {
    /// Number of conflicts per successful read transaction.
    pub read_transaction_conflicts: Size,
    /// Number of eager (before commit) conflicts per successful write transaction.
    pub write_transaction_eager_conflicts: Size,
    /// Number of commit conflicts per successful write transaction.
    pub write_transaction_commit_conflicts: Size,
    /// Number of hardware conflicts per hardware transaction or software fallback.
    pub htm_conflicts: Size,
    /// Number of locations in the read log at commit time.
    pub read_size: Size,
    /// Number of words in the write log at commit time.
    pub write_word_size: Size,
    /// A bloom filter check.
    pub bloom_check: Event,
    /// A bloom filter collision.
    pub bloom_collision: Event,
    /// A bloom filter hit that required a full lookup to verify.
    pub bloom_success_slow: Event,
    /// A transactional read of data that exists in the write log.
    pub read_after_write: Event,
    /// A transactional overwrite of data that exists in the write log.
    pub write_after_write: Event,
    /// Number of transactional writes to data that was logged as read first.
    pub write_after_logged_read: Size,
    /// Number of times a read transaction hit the maximum backoff.
    pub should_park_read: Size,
    /// Number of times a read/write transaction hit the maximum backoff.
    pub should_park_write: Size,
    /// Number of times a garbage collection cycle hit the maximum backoff.
    pub should_park_gc: Size,
    /// Number of threads awaiting retry woken up per call to unpark.
    pub unparked_size: Size,
    /// Number of threads awaiting retry not woken up per call to unpark.
    pub not_unparked_size: Size,
    /// Number of failed hardware parking attempts when awaiting retry.
    pub htm_park_conflicts: Size,
    /// Number of epoch locks waited on when parking failed.
    pub park_failure_size: Size,
    /// Number of epoch locks a parked thread can be woken up from.
    pub parked_size: Size,
}

/// Whether every field of the two collections can be merged without overflow.
pub open spec fn stats_mergeable(a: &Stats, b: &Stats) -> bool {
    &&& sizes_mergeable(a.read_transaction_conflicts@, b.read_transaction_conflicts@)
    &&& sizes_mergeable(a.write_transaction_eager_conflicts@, b.write_transaction_eager_conflicts@)
    &&& sizes_mergeable(a.write_transaction_commit_conflicts@, b.write_transaction_commit_conflicts@)
    &&& sizes_mergeable(a.htm_conflicts@, b.htm_conflicts@)
    &&& sizes_mergeable(a.read_size@, b.read_size@)
    &&& sizes_mergeable(a.write_word_size@, b.write_word_size@)
    &&& a.bloom_check@ + b.bloom_check@ <= usize::MAX
    &&& a.bloom_collision@ + b.bloom_collision@ <= usize::MAX
    &&& a.bloom_success_slow@ + b.bloom_success_slow@ <= usize::MAX
    &&& a.read_after_write@ + b.read_after_write@ <= usize::MAX
    &&& a.write_after_write@ + b.write_after_write@ <= usize::MAX
    &&& sizes_mergeable(a.write_after_logged_read@, b.write_after_logged_read@)
    &&& sizes_mergeable(a.should_park_read@, b.should_park_read@)
    &&& sizes_mergeable(a.should_park_write@, b.should_park_write@)
    &&& sizes_mergeable(a.should_park_gc@, b.should_park_gc@)
    &&& sizes_mergeable(a.unparked_size@, b.unparked_size@)
    &&& sizes_mergeable(a.not_unparked_size@, b.not_unparked_size@)
    &&& sizes_mergeable(a.htm_park_conflicts@, b.htm_park_conflicts@)
    &&& sizes_mergeable(a.park_failure_size@, b.park_failure_size@)
    &&& sizes_mergeable(a.parked_size@, b.parked_size@)
}

/// Every field of `r` is the merge of the fields of `a` and `b`.
pub open spec fn stats_merged(r: &Stats, a: &Stats, b: &Stats) -> bool {
    &&& r.read_transaction_conflicts@ == (a.read_transaction_conflicts@.0 + b.read_transaction_conflicts@.0, merged_summary(a.read_transaction_conflicts@.1, b.read_transaction_conflicts@.1))
    &&& r.write_transaction_eager_conflicts@ == (a.write_transaction_eager_conflicts@.0 + b.write_transaction_eager_conflicts@.0, merged_summary(a.write_transaction_eager_conflicts@.1, b.write_transaction_eager_conflicts@.1))
    &&& r.write_transaction_commit_conflicts@ == (a.write_transaction_commit_conflicts@.0 + b.write_transaction_commit_conflicts@.0, merged_summary(a.write_transaction_commit_conflicts@.1, b.write_transaction_commit_conflicts@.1))
    &&& r.htm_conflicts@ == (a.htm_conflicts@.0 + b.htm_conflicts@.0, merged_summary(a.htm_conflicts@.1, b.htm_conflicts@.1))
    &&& r.read_size@ == (a.read_size@.0 + b.read_size@.0, merged_summary(a.read_size@.1, b.read_size@.1))
    &&& r.write_word_size@ == (a.write_word_size@.0 + b.write_word_size@.0, merged_summary(a.write_word_size@.1, b.write_word_size@.1))
    &&& r.bloom_check@ == a.bloom_check@ + b.bloom_check@
    &&& r.bloom_collision@ == a.bloom_collision@ + b.bloom_collision@
    &&& r.bloom_success_slow@ == a.bloom_success_slow@ + b.bloom_success_slow@
    &&& r.read_after_write@ == a.read_after_write@ + b.read_after_write@
    &&& r.write_after_write@ == a.write_after_write@ + b.write_after_write@
    &&& r.write_after_logged_read@ == (a.write_after_logged_read@.0 + b.write_after_logged_read@.0, merged_summary(a.write_after_logged_read@.1, b.write_after_logged_read@.1))
    &&& r.should_park_read@ == (a.should_park_read@.0 + b.should_park_read@.0, merged_summary(a.should_park_read@.1, b.should_park_read@.1))
    &&& r.should_park_write@ == (a.should_park_write@.0 + b.should_park_write@.0, merged_summary(a.should_park_write@.1, b.should_park_write@.1))
    &&& r.should_park_gc@ == (a.should_park_gc@.0 + b.should_park_gc@.0, merged_summary(a.should_park_gc@.1, b.should_park_gc@.1))
    &&& r.unparked_size@ == (a.unparked_size@.0 + b.unparked_size@.0, merged_summary(a.unparked_size@.1, b.unparked_size@.1))
    &&& r.not_unparked_size@ == (a.not_unparked_size@.0 + b.not_unparked_size@.0, merged_summary(a.not_unparked_size@.1, b.not_unparked_size@.1))
    &&& r.htm_park_conflicts@ == (a.htm_park_conflicts@.0 + b.htm_park_conflicts@.0, merged_summary(a.htm_park_conflicts@.1, b.htm_park_conflicts@.1))
    &&& r.park_failure_size@ == (a.park_failure_size@.0 + b.park_failure_size@.0, merged_summary(a.park_failure_size@.1, b.park_failure_size@.1))
    &&& r.parked_size@ == (a.parked_size@.0 + b.parked_size@.0, merged_summary(a.parked_size@.1, b.parked_size@.1))
}

/// Every field of `s` is empty.
pub open spec fn stats_empty(s: &Stats) -> bool {
    &&& s.read_transaction_conflicts@ == (0nat, None::<MinMaxTotal>)
    &&& s.write_transaction_eager_conflicts@ == (0nat, None::<MinMaxTotal>)
    &&& s.write_transaction_commit_conflicts@ == (0nat, None::<MinMaxTotal>)
    &&& s.htm_conflicts@ == (0nat, None::<MinMaxTotal>)
    &&& s.read_size@ == (0nat, None::<MinMaxTotal>)
    &&& s.write_word_size@ == (0nat, None::<MinMaxTotal>)
    &&& s.bloom_check@ == 0
    &&& s.bloom_collision@ == 0
    &&& s.bloom_success_slow@ == 0
    &&& s.read_after_write@ == 0
    &&& s.write_after_write@ == 0
    &&& s.write_after_logged_read@ == (0nat, None::<MinMaxTotal>)
    &&& s.should_park_read@ == (0nat, None::<MinMaxTotal>)
    &&& s.should_park_write@ == (0nat, None::<MinMaxTotal>)
    &&& s.should_park_gc@ == (0nat, None::<MinMaxTotal>)
    &&& s.unparked_size@ == (0nat, None::<MinMaxTotal>)
    &&& s.not_unparked_size@ == (0nat, None::<MinMaxTotal>)
    &&& s.htm_park_conflicts@ == (0nat, None::<MinMaxTotal>)
    &&& s.park_failure_size@ == (0nat, None::<MinMaxTotal>)
    &&& s.parked_size@ == (0nat, None::<MinMaxTotal>)
}

impl Stats {
    /// Empty statistics.
    pub fn new() -> (r: Stats)
        ensures
            stats_empty(&r),
    {
        Stats {
            read_transaction_conflicts: Size::new(),
            write_transaction_eager_conflicts: Size::new(),
            write_transaction_commit_conflicts: Size::new(),
            htm_conflicts: Size::new(),
            read_size: Size::new(),
            write_word_size: Size::new(),
            bloom_check: Event::new(),
            bloom_collision: Event::new(),
            bloom_success_slow: Event::new(),
            read_after_write: Event::new(),
            write_after_write: Event::new(),
            write_after_logged_read: Size::new(),
            should_park_read: Size::new(),
            should_park_write: Size::new(),
            should_park_gc: Size::new(),
            unparked_size: Size::new(),
            not_unparked_size: Size::new(),
            htm_park_conflicts: Size::new(),
            park_failure_size: Size::new(),
            parked_size: Size::new(),
        }
    }

    /// Whether `rhs` can be merged into `self` without overflow.
    pub fn can_merge(&self, rhs: &Self) -> (r: bool)
        ensures
            r == stats_mergeable(self, rhs),
    {
        self.read_transaction_conflicts.can_merge(&rhs.read_transaction_conflicts)
            && self.write_transaction_eager_conflicts.can_merge(&rhs.write_transaction_eager_conflicts)
            && self.write_transaction_commit_conflicts.can_merge(&rhs.write_transaction_commit_conflicts)
            && self.htm_conflicts.can_merge(&rhs.htm_conflicts)
            && self.read_size.can_merge(&rhs.read_size)
            && self.write_word_size.can_merge(&rhs.write_word_size)
            && self.bloom_check.can_merge(&rhs.bloom_check)
            && self.bloom_collision.can_merge(&rhs.bloom_collision)
            && self.bloom_success_slow.can_merge(&rhs.bloom_success_slow)
            && self.read_after_write.can_merge(&rhs.read_after_write)
            && self.write_after_write.can_merge(&rhs.write_after_write)
            && self.write_after_logged_read.can_merge(&rhs.write_after_logged_read)
            && self.should_park_read.can_merge(&rhs.should_park_read)
            && self.should_park_write.can_merge(&rhs.should_park_write)
            && self.should_park_gc.can_merge(&rhs.should_park_gc)
            && self.unparked_size.can_merge(&rhs.unparked_size)
            && self.not_unparked_size.can_merge(&rhs.not_unparked_size)
            && self.htm_park_conflicts.can_merge(&rhs.htm_park_conflicts)
            && self.park_failure_size.can_merge(&rhs.park_failure_size)
            && self.parked_size.can_merge(&rhs.parked_size)
    }

    /// Merges `rhs` into `self`.
    pub fn merge(&mut self, rhs: &Self)
        requires
            stats_mergeable(old(self), rhs),
        ensures
            stats_merged(final(self), old(self), rhs),
    {
        self.read_transaction_conflicts.merge(&rhs.read_transaction_conflicts);
        self.write_transaction_eager_conflicts.merge(&rhs.write_transaction_eager_conflicts);
        self.write_transaction_commit_conflicts.merge(&rhs.write_transaction_commit_conflicts);
        self.htm_conflicts.merge(&rhs.htm_conflicts);
        self.read_size.merge(&rhs.read_size);
        self.write_word_size.merge(&rhs.write_word_size);
        self.bloom_check.merge(&rhs.bloom_check);
        self.bloom_collision.merge(&rhs.bloom_collision);
        self.bloom_success_slow.merge(&rhs.bloom_success_slow);
        self.read_after_write.merge(&rhs.read_after_write);
        self.write_after_write.merge(&rhs.write_after_write);
        self.write_after_logged_read.merge(&rhs.write_after_logged_read);
        self.should_park_read.merge(&rhs.should_park_read);
        self.should_park_write.merge(&rhs.should_park_write);
        self.should_park_gc.merge(&rhs.should_park_gc);
        self.unparked_size.merge(&rhs.unparked_size);
        self.not_unparked_size.merge(&rhs.not_unparked_size);
        self.htm_park_conflicts.merge(&rhs.htm_park_conflicts);
        self.park_failure_size.merge(&rhs.park_failure_size);
        self.parked_size.merge(&rhs.parked_size);
    }
}

/// The integer figures of a summary of statistics; the averages are their ratios.
#[derive(Copy, Clone, Debug, PartialEq, Eq, Structural)]
pub struct Summary {
    /// Successful transactions. Each successful transaction records its conflicts once: read
    /// transactions in `read_transaction_conflicts`, write transactions in both the eager and the
    /// commit conflicts, so the read and eager counts add up to them.
    pub transactions: u64,
    /// Conflicts of every kind: the totals of the read, eager and commit conflicts.
    pub conflicts: u64,
    /// The total of the hardware conflicts.
    pub htm_conflicts: u64,
    /// Bloom filter checks.
    pub bloom_checks: usize,
    /// Bloom filter collisions.
    pub bloom_collisions: usize,
    /// Bloom filter hits that needed a full lookup, collisions included.
    pub bloom_slow: usize,
}

/// The total of the recorded sizes, zero if none was recorded.
pub open spec fn size_total(s: (nat, Option<MinMaxTotal>)) -> nat {
    match s.1 {
        Some(m) => m.total as nat,
        None => 0,
    }
}

/// The total of the recorded sizes, zero if none was recorded.
fn total_or_zero(s: &Size) -> (r: u64)
    ensures
        r == size_total(s@),
{
    match s.min_max_total() {
        Some(m) => m.total,
        None => 0,
    }
}

impl Stats {
    /// The figures of the summary, or `None` if one of the sums overflows its integer type.
    pub fn summary(&self) -> (r: Option<Summary>)
        ensures
            r is Some <==> {
                &&& self.read_transaction_conflicts@.0 + self.write_transaction_eager_conflicts@.0
                    <= u64::MAX
                &&& size_total(self.read_transaction_conflicts@) + size_total(
                    self.write_transaction_eager_conflicts@,
                ) <= u64::MAX
                &&& size_total(self.read_transaction_conflicts@) + size_total(
                    self.write_transaction_eager_conflicts@,
                ) + size_total(self.write_transaction_commit_conflicts@) <= u64::MAX
                &&& self.bloom_success_slow@ + self.bloom_collision@ <= usize::MAX
            },
            r matches Some(sum) ==> {
                &&& sum.transactions == self.read_transaction_conflicts@.0
                    + self.write_transaction_eager_conflicts@.0
                &&& sum.conflicts == size_total(self.read_transaction_conflicts@) + size_total(
                    self.write_transaction_eager_conflicts@,
                ) + size_total(self.write_transaction_commit_conflicts@)
                &&& sum.htm_conflicts == size_total(self.htm_conflicts@)
                &&& sum.bloom_checks == self.bloom_check@
                &&& sum.bloom_collisions == self.bloom_collision@
                &&& sum.bloom_slow == self.bloom_success_slow@ + self.bloom_collision@
            },
    {
        let transactions = match self.read_transaction_conflicts.count().checked_add(
            self.write_transaction_eager_conflicts.count(),
        ) {
            Some(t) => t,
            None => return None,
        };
        let read_and_eager = match total_or_zero(&self.read_transaction_conflicts).checked_add(
            total_or_zero(&self.write_transaction_eager_conflicts),
        ) {
            Some(t) => t,
            None => return None,
        };
        let conflicts = match read_and_eager.checked_add(
            total_or_zero(&self.write_transaction_commit_conflicts),
        ) {
            Some(t) => t,
            None => return None,
        };
        let bloom_slow = match self.bloom_success_slow.count().checked_add(
            self.bloom_collision.count(),
        ) {
            Some(t) => t,
            None => return None,
        };
        Some(
            Summary {
                transactions,
                conflicts,
                htm_conflicts: total_or_zero(&self.htm_conflicts),
                bloom_checks: self.bloom_check.count(),
                bloom_collisions: self.bloom_collision.count(),
                bloom_slow,
            },
        )
    }
}

/// Thread local statistics, flushed into the global statistics on request.
#[derive(Debug)]
pub struct ThreadStats(Stats);

impl ThreadStats {
    /// Empty thread statistics.
    pub fn new() -> (r: ThreadStats)
        ensures
            stats_empty(r.get_spec()),
    {
        ThreadStats(Stats::new())
    }

    /// The statistics held.
    pub closed spec fn get_spec(&self) -> &Stats {
        &self.0
    }

    /// Returns the statistics object.
    pub fn get(&self) -> (r: &Stats)
        ensures
            r == self.get_spec(),
    {
        &self.0
    }

    /// Returns the statistics object for recording.
    pub fn get_mut(&mut self) -> (r: &mut Stats)
        ensures
            *r == *old(self).get_spec(),
            *final(self).get_spec() == *final(r),
    {
        &mut self.0
    }

    /// Flushes these statistics into `global` and resets them.
    pub fn flush(&mut self, global: &mut Stats)
        requires
            stats_mergeable(old(global), old(self).get_spec()),
        ensures
            stats_merged(final(global), old(global), old(self).get_spec()),
            stats_empty(final(self).get_spec()),
    {
        global.merge(&self.0);
        self.0 = Stats::new();
    }
}

/// Returns the global statistics, or `None` when statistics collection is not enabled.
pub fn stats<'a>(enabled: bool, global: &'a Stats) -> (r: Option<&'a Stats>)
    ensures
        r == (if enabled { Some(global) } else { None }),
{
    if enabled {
        Some(global)
    } else {
        None
    }
}

/// Returns the thread local statistics, or `None` when statistics collection is not enabled.
pub fn thread_stats<'a>(enabled: bool, local: &'a ThreadStats) -> (r: Option<&'a ThreadStats>)
    ensures
        r == (if enabled { Some(local) } else { None }),
{
    if enabled {
        Some(local)
    } else {
        None
    }
}

/// Merging with an empty distribution changes nothing, on either side.
pub proof fn law_merge_empty_identity(a: Option<MinMaxTotal>)
    ensures
        merged_summary(a, None) == a,
        merged_summary(None, a) == a,
{
}

/// Merging distributions does not depend on their order.
pub proof fn law_merge_commutative(a: Option<MinMaxTotal>, b: Option<MinMaxTotal>)
    ensures
        merged_summary(a, b) == merged_summary(b, a),
{
}

/// Recording a size is merging the distribution of that single size.
pub proof fn law_record_is_merge(prev: Option<MinMaxTotal>, size: u64)
    ensures
        recorded(prev, size) == merged_summary(
            prev,
            Some(MinMaxTotal { min: size, max: size, total: size }),
        ),
{
}

} // verus!
