//! Recency histogram: how much cached data was last touched at each access
//! time, together with a movable retention threshold.

use crate::index::IndexValue;
use vstd::prelude::*;

verus! {

/// What one bucket has accumulated: the number of entries recorded and the sum
/// of their sizes in bytes. Both saturate at `u64::MAX`.
#[derive(Debug, Copy, Clone, PartialEq, Eq, Structural)]
pub struct BucketTotals {
    pub count: u64,
    pub bytes: u64,
}

/// One bucket of the histogram as it is stored.
#[derive(Debug, Copy, Clone, PartialEq, Eq, Structural)]
pub struct Bucket {
    pub atime: u64,
    pub totals: BucketTotals,
}

/// Saturating sum of two `u64` values.
pub open spec fn sat_add(a: u64, b: u64) -> u64 {
    if a + b > u64::MAX {
        u64::MAX
    } else {
        (a + b) as u64
    }
}

impl BucketTotals {
    /// The totals after recording one more entry of `size` bytes.
    pub open spec fn record(self, size: u64) -> BucketTotals {
        BucketTotals { count: sat_add(self.count, 1), bytes: sat_add(self.bytes, size) }
    }

    /// The totals of a bucket that has recorded nothing.
    pub open spec fn zero() -> BucketTotals {
        BucketTotals { count: 0, bytes: 0 }
    }
}

/// Mathematical content of a histogram: the retention threshold and the
/// totals of every access time that has a bucket.
pub struct HistogramView {
    pub start: usize,
    pub totals: Map<u64, BucketTotals>,
}

impl HistogramView {
    /// A histogram with no buckets and threshold zero.
    pub open spec fn fresh() -> HistogramView {
        HistogramView { start: 0, totals: Map::empty() }
    }

    /// The totals recorded for `atime`; zero where nothing was recorded.
    pub open spec fn totals_at(self, atime: u64) -> BucketTotals {
        if self.totals.contains_key(atime) {
            self.totals[atime]
        } else {
            BucketTotals::zero()
        }
    }

    /// Records one entry of `size` bytes last accessed at `atime`.
    pub open spec fn insert(self, atime: u64, size: u64) -> HistogramView {
        HistogramView {
            start: self.start,
            totals: self.totals.insert(atime, self.totals_at(atime).record(size)),
        }
    }

    /// Moves the retention threshold and keeps every bucket.
    pub open spec fn set_start(self, start: usize) -> HistogramView {
        HistogramView { start, totals: self.totals }
    }

    /// Drops every bucket and keeps the retention threshold.
    pub open spec fn clear(self) -> HistogramView {
        HistogramView { start: self.start, totals: Map::empty() }
    }

    /// Whether an entry last accessed at `atime` is still retained.
    pub open spec fn retains(self, atime: u64) -> bool {
        atime >= self.start
    }
}

/// The map that a sequence of stored buckets stands for: each access time
/// maps to the totals of the last bucket that carries it.
pub open spec fn buckets_map(buckets: Seq<Bucket>) -> Map<u64, BucketTotals>
    decreases buckets.len(),
{
    if buckets.len() == 0 {
        Map::empty()
    } else {
        buckets_map(buckets.drop_last()).insert(buckets.last().atime, buckets.last().totals)
    }
}

/// Whether no bucket after position `i` carries `atime`.
pub open spec fn absent_after(buckets: Seq<Bucket>, i: int, atime: u64) -> bool {
    forall|k: int| i < k < buckets.len() ==> (#[trigger] buckets[k]).atime != atime
}

/// An access time that no bucket carries is no key of the map.
pub proof fn lemma_buckets_map_absent(buckets: Seq<Bucket>, atime: u64)
    requires
        absent_after(buckets, -1, atime),
    ensures
        !buckets_map(buckets).contains_key(atime),
    decreases buckets.len(),
{
    if buckets.len() > 0 {
        let front = buckets.drop_last();
        assert(absent_after(front, -1, atime)) by {
            assert forall|k: int| -1 < k < front.len() implies (#[trigger] front[k]).atime
                != atime by {
                assert(front[k] == buckets[k]);
            }
        }
        lemma_buckets_map_absent(front, atime);
        assert(buckets[buckets.len() - 1].atime != atime);
    }
}

/// The map gives, for the access time of bucket `i`, that bucket's totals,
/// provided that no later bucket carries the same access time.
pub proof fn lemma_buckets_map_value(buckets: Seq<Bucket>, i: int)
    requires
        0 <= i < buckets.len(),
        absent_after(buckets, i, buckets[i].atime),
    ensures
        buckets_map(buckets).contains_key(buckets[i].atime),
        buckets_map(buckets)[buckets[i].atime] == buckets[i].totals,
    decreases buckets.len(),
{
    let front = buckets.drop_last();
    if i < buckets.len() - 1 {
        assert(front[i] == buckets[i]);
        assert(absent_after(front, i, front[i].atime)) by {
            assert forall|k: int| i < k < front.len() implies (#[trigger] front[k]).atime
                != front[i].atime by {
                assert(front[k] == buckets[k]);
            }
        }
        lemma_buckets_map_value(front, i);
        assert(buckets[buckets.len() - 1].atime != buckets[i].atime);
    }
}

/// Replacing the totals of bucket `i` replaces the value under its access
/// time, provided that no later bucket carries the same access time.
pub proof fn lemma_buckets_map_update(buckets: Seq<Bucket>, i: int, totals: BucketTotals)
    requires
        0 <= i < buckets.len(),
        absent_after(buckets, i, buckets[i].atime),
    ensures
        buckets_map(buckets.update(i, Bucket { atime: buckets[i].atime, totals }))
            == buckets_map(buckets).insert(buckets[i].atime, totals),
    decreases buckets.len(),
{
    let atime = buckets[i].atime;
    let after = buckets.update(i, Bucket { atime, totals });
    let front = buckets.drop_last();
    if i == buckets.len() - 1 {
        assert(after.drop_last() == front);
        assert(buckets_map(after) == buckets_map(buckets).insert(atime, totals));
    } else {
        assert(front[i] == buckets[i]);
        assert(absent_after(front, i, front[i].atime)) by {
            assert forall|k: int| i < k < front.len() implies (#[trigger] front[k]).atime
                != front[i].atime by {
                assert(front[k] == buckets[k]);
            }
        }
        lemma_buckets_map_update(front, i, totals);
        assert(after.drop_last() == front.update(i, Bucket { atime, totals }));
        assert(after.last() == buckets.last());
        assert(buckets[buckets.len() - 1].atime != atime);
        assert(buckets_map(after) == buckets_map(buckets).insert(atime, totals));
    }
}

/// Persistent recency histogram.
///
/// Buckets are kept in the order in which their access times were first
/// recorded.
#[derive(Debug)]
pub struct AtimeHistogramPhys {
    buckets: Vec<Bucket>,
    start: usize,
}

impl View for AtimeHistogramPhys {
    type V = HistogramView;

    closed spec fn view(&self) -> HistogramView {
        HistogramView { start: self.start, totals: buckets_map(self.buckets@) }
    }
}

impl AtimeHistogramPhys {
    /// An empty histogram whose retention threshold is `start`.
    pub fn new(start: usize) -> (histogram: AtimeHistogramPhys)
        ensures
            histogram@ == HistogramView::fresh().set_start(start),
    {
        AtimeHistogramPhys { buckets: Vec::new(), start }
    }

    /// The histogram that was stored as `start` and `buckets`. Where two
    /// buckets carry the same access time, the later one counts.
    pub fn from_parts(start: usize, buckets: Vec<Bucket>) -> (histogram: AtimeHistogramPhys)
        ensures
            histogram@ == (HistogramView { start, totals: buckets_map(buckets@) }),
    {
        AtimeHistogramPhys { buckets, start }
    }

    /// The buckets to store: together with the threshold they give this
    /// histogram back.
    pub fn buckets(&self) -> (buckets: Vec<Bucket>)
        ensures
            buckets_map(buckets@) == self@.totals,
    {
        self.copy_buckets()
    }

    /// The current retention threshold.
    pub fn get_start(&self) -> (start: usize)
        ensures
            start == self@.start,
    {
        self.start
    }

    /// Sets the retention threshold to `start`, whether or not that moves it
    /// forward. Buckets are untouched.
    pub fn set_start(&mut self, start: usize)
        ensures
            final(self)@ == old(self)@.set_start(start),
    {
        self.start = start;
    }

    /// Records `value` in the bucket for its access time. The bucket's count
    /// grows by one and its byte total by the value's size, each saturating;
    /// all other buckets and the threshold stay as they were. The threshold
    /// plays no part: a value older than it is recorded like any other.
    pub fn insert(&mut self, value: IndexValue)
        ensures
            final(self)@ == old(self)@.insert(value.atime.0, value.size as u64),
    {
        let atime: u64 = value.atime.0;
        let size: u64 = value.size as u64;
        let mut i: usize = self.buckets.len();
        while i > 0
            invariant
                i <= self.buckets.len(),
                *self == *old(self),
                atime == value.atime.0,
                size == value.size as u64,
                absent_after(self.buckets@, i as int - 1, atime),
            decreases i,
        {
            i -= 1;
            if self.buckets[i].atime == atime {
                let before: BucketTotals = self.buckets[i].totals;
                let totals = BucketTotals {
                    count: before.count.saturating_add(1),
                    bytes: before.bytes.saturating_add(size),
                };
                proof {
                    lemma_buckets_map_value(self.buckets@, i as int);
                    lemma_buckets_map_update(self.buckets@, i as int, totals);
                }
                self.buckets.set(i, Bucket { atime, totals });
                return ;
            }
        }
        let totals = BucketTotals { count: 1, bytes: size };
        proof {
            lemma_buckets_map_absent(self.buckets@, atime);
            assert(self.buckets@.push(Bucket { atime, totals }).drop_last() == self.buckets@);
        }
        self.buckets.push(Bucket { atime, totals });
    }

    /// Drops every bucket and keeps the retention threshold.
    pub fn clear(&mut self)
        ensures
            final(self)@ == old(self)@.clear(),
    {
        self.buckets.clear();
    }

    /// Drops every bucket and moves the retention threshold back to zero, so
    /// that the histogram equals one that was never used.
    pub fn reset(&mut self)
        ensures
            final(self)@ == HistogramView::fresh(),
    {
        self.buckets.clear();
        self.start = 0;
    }

    /// The count and byte total recorded for `atime`; zero where there is no
    /// bucket for it.
    pub fn totals_at(&self, atime: u64) -> (totals: BucketTotals)
        ensures
            totals == self@.totals_at(atime),
    {
        let mut i: usize = self.buckets.len();
        while i > 0
            invariant
                i <= self.buckets.len(),
                absent_after(self.buckets@, i as int - 1, atime),
            decreases i,
        {
            i -= 1;
            if self.buckets[i].atime == atime {
                proof {
                    lemma_buckets_map_value(self.buckets@, i as int);
                }
                return self.buckets[i].totals;
            }
        }
        proof {
            lemma_buckets_map_absent(self.buckets@, atime);
        }
        BucketTotals { count: 0, bytes: 0 }
    }

    /// A copy of the stored buckets.
    fn copy_buckets(&self) -> (buckets: Vec<Bucket>)
        ensures
            buckets@ == self.buckets@,
    {
        let mut buckets: Vec<Bucket> = Vec::new();
        let mut i: usize = 0;
        while i < self.buckets.len()
            invariant
                i <= self.buckets.len(),
                buckets@ == self.buckets@.subrange(0, i as int),
            decreases self.buckets.len() - i,
        {
            buckets.push(self.buckets[i]);
            i += 1;
            assert(buckets@ == self.buckets@.subrange(0, i as int));
        }
        assert(buckets@ == self.buckets@);
        buckets
    }

    /// An independent copy with the same threshold and buckets.
    pub fn snapshot(&self) -> (copy: AtimeHistogramPhys)
        ensures
            copy@ == self@,
    {
        AtimeHistogramPhys { buckets: self.copy_buckets(), start: self.start }
    }
}

impl Default for AtimeHistogramPhys {
    fn default() -> (histogram: AtimeHistogramPhys)
        ensures
            histogram@ == HistogramView::fresh(),
    {
        AtimeHistogramPhys::new(0)
    }
}

} // verus!
