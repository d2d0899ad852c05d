//! The cache index: which blocks are cached, where, and how recently they
//! were touched.

use crate::base_types::{Atime, BlockId, DiskLocation, PoolGuid};
use crate::histogram::{AtimeHistogramPhys, HistogramView};
use vstd::prelude::*;

verus! {

/// Key of a cached block: the pool it belongs to and its block number.
#[derive(Debug, Copy, Clone, PartialEq, Eq, PartialOrd, Ord, Structural)]
pub struct IndexKey {
    pub guid: PoolGuid,
    pub block: BlockId,
}

/// Where a cached block is stored, how large it is, and when it was last
/// accessed.
#[derive(Debug, Copy, Clone, PartialEq, Eq, PartialOrd, Ord, Structural)]
pub struct IndexValue {
    pub location: DiskLocation,
    pub size: usize,
    pub atime: Atime,
}

/// One record of the index log.
#[derive(Debug, Copy, Clone, PartialEq, Eq, Structural)]
pub struct IndexEntry {
    pub key: IndexKey,
    pub value: IndexValue,
}

/// Mathematical content of a cache index: the histogram and the records of
/// the log, oldest first.
pub struct IndexView {
    pub histogram: HistogramView,
    pub log: Seq<IndexEntry>,
}

impl IndexView {
    /// An index that holds nothing and retains everything.
    pub open spec fn fresh() -> IndexView {
        IndexView { histogram: HistogramView::fresh(), log: Seq::empty() }
    }

    /// Records `entry` unconditionally.
    pub open spec fn append(self, entry: IndexEntry) -> IndexView {
        IndexView {
            histogram: self.histogram.insert(entry.value.atime.0, entry.value.size as u64),
            log: self.log.push(entry),
        }
    }

    /// Records `entry` if the histogram still retains its access time, and
    /// leaves the index as it is otherwise.
    pub open spec fn append_or_evict(self, entry: IndexEntry) -> IndexView {
        if self.histogram.retains(entry.value.atime.0) {
            self.append(entry)
        } else {
            self
        }
    }

    /// Moves the retention threshold.
    pub open spec fn set_histogram_start(self, start: usize) -> IndexView {
        IndexView { histogram: self.histogram.set_start(start), log: self.log }
    }

    /// What a flush writes down: everything.
    pub open spec fn snapshot(self) -> IndexView {
        self
    }

    /// The index that opening `snapshot` gives.
    pub open spec fn reopened(snapshot: IndexView) -> IndexView {
        snapshot
    }
}

/// The cache index in memory: a recency histogram and the log of entries.
pub struct ZettaCacheIndex {
    pub atime_histogram: AtimeHistogramPhys,
    pub log: Vec<IndexEntry>,
}

/// Durable snapshot of a cache index.
#[derive(Debug)]
pub struct ZettaCacheIndexPhys {
    atime_histogram: AtimeHistogramPhys,
    log: Vec<IndexEntry>,
}

impl View for ZettaCacheIndex {
    type V = IndexView;

    open spec fn view(&self) -> IndexView {
        IndexView { histogram: self.atime_histogram@, log: self.log@ }
    }
}

impl View for ZettaCacheIndexPhys {
    type V = IndexView;

    closed spec fn view(&self) -> IndexView {
        IndexView { histogram: self.atime_histogram@, log: self.log@ }
    }
}

impl Default for ZettaCacheIndexPhys {
    /// The snapshot of an index that was never used.
    fn default() -> (phys: ZettaCacheIndexPhys)
        ensures
            phys@ == IndexView::fresh(),
    {
        ZettaCacheIndexPhys { atime_histogram: AtimeHistogramPhys::new(0), log: Vec::new() }
    }
}

impl ZettaCacheIndexPhys {
    /// The snapshot that holds `atime_histogram` and the records `log`.
    pub fn from_parts(atime_histogram: AtimeHistogramPhys, log: Vec<IndexEntry>) -> (phys:
        ZettaCacheIndexPhys)
        ensures
            phys@ == (IndexView { histogram: atime_histogram@, log: log@ }),
    {
        ZettaCacheIndexPhys { atime_histogram, log }
    }

    /// The histogram and the records that the snapshot holds.
    pub fn into_parts(self) -> (parts: (AtimeHistogramPhys, Vec<IndexEntry>))
        ensures
            parts.0@ == self@.histogram,
            parts.1@ == self@.log,
    {
        (self.atime_histogram, self.log)
    }
}

/// A copy of `entries`, record by record.
fn copy_entries(entries: &Vec<IndexEntry>) -> (copy: Vec<IndexEntry>)
    ensures
        copy@ == entries@,
{
    let mut copy: Vec<IndexEntry> = Vec::new();
    let mut i: usize = 0;
    while i < entries.len()
        invariant
            i <= entries.len(),
            copy@ == entries@.subrange(0, i as int),
        decreases entries.len() - i,
    {
        copy.push(entries[i]);
        i += 1;
        assert(copy@ == entries@.subrange(0, i as int));
    }
    assert(copy@ == entries@);
    copy
}

impl ZettaCacheIndex {
    /// Rebuilds the index from a snapshot: the histogram and the log are
    /// exactly those that were flushed.
    pub fn open(phys: ZettaCacheIndexPhys) -> (index: ZettaCacheIndex)
        ensures
            index@ == IndexView::reopened(phys@),
    {
        ZettaCacheIndex { atime_histogram: phys.atime_histogram, log: phys.log }
    }

    /// Takes a snapshot of the index. The index itself stays as it is and can
    /// be used further.
    pub fn flush(&mut self) -> (phys: ZettaCacheIndexPhys)
        ensures
            phys@ == old(self)@.snapshot(),
            final(self)@ == old(self)@,
    {
        ZettaCacheIndexPhys {
            atime_histogram: self.atime_histogram.snapshot(),
            log: copy_entries(&self.log),
        }
    }

    /// Sets the histogram's retention threshold; the log is untouched.
    pub fn set_histogram_start(&mut self, start: usize)
        ensures
            final(self)@ == old(self)@.set_histogram_start(start),
    {
        self.atime_histogram.set_start(start);
    }

    /// Records `entry` in the histogram and appends it to the log, whatever
    /// its access time.
    pub fn append(&mut self, entry: IndexEntry)
        ensures
            final(self)@ == old(self)@.append(entry),
    {
        self.atime_histogram.insert(entry.value);
        self.log.push(entry);
    }

    /// Keeps `entry` if its access time is at or after the retention
    /// threshold, exactly as `append` does, and drops it otherwise, leaving
    /// histogram and log unchanged. Nothing is reclaimed here: freeing the
    /// space of a dropped entry is the caller's business.
    pub fn append_or_evict(&mut self, entry: IndexEntry)
        ensures
            final(self)@ == old(self)@.append_or_evict(entry),
    {
        if entry.value.atime.0 >= self.atime_histogram.get_start() as u64 {
            self.append(entry);
        }
    }

    /// Empties histogram and log and moves the retention threshold back to
    /// zero: the index equals one that was never used.
    pub fn clear(&mut self)
        ensures
            final(self)@ == IndexView::fresh(),
    {
        self.atime_histogram.reset();
        self.log.clear();
    }
}

/// What `append_or_evict` does to an entry older than the threshold: nothing.
pub proof fn law_expired_entry_is_dropped(index: IndexView, entry: IndexEntry)
    requires
        entry.value.atime.0 < index.histogram.start,
    ensures
        index.append_or_evict(entry) == index,
{
}

/// What `append_or_evict` does to an entry at or after the threshold: what
/// `append` does.
pub proof fn law_retained_entry_is_appended(index: IndexView, entry: IndexEntry)
    requires
        entry.value.atime.0 >= index.histogram.start,
    ensures
        index.append_or_evict(entry) == index.append(entry),
{
}

/// Flushing an index and opening the snapshot gives back the same index: the
/// same log, the same histogram and threshold, and therefore the same
/// outcome for every operation that follows.
pub proof fn law_flush_then_open_is_identity(index: IndexView, entry: IndexEntry, start: usize)
    ensures
        IndexView::reopened(index.snapshot()) == index,
        IndexView::reopened(index.snapshot()).histogram.start == index.histogram.start,
        IndexView::reopened(index.snapshot()).append(entry) == index.append(entry),
        IndexView::reopened(index.snapshot()).append_or_evict(entry) == index.append_or_evict(
            entry,
        ),
        IndexView::reopened(index.snapshot()).set_histogram_start(start)
            == index.set_histogram_start(start),
{
}

} // verus!
