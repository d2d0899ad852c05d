//! Identifier and counter newtypes shared by the cache index.

use vstd::prelude::*;

verus! {

/// Identifies the storage pool that a cached block belongs to.
#[derive(Debug, Copy, Clone, PartialEq, Eq, PartialOrd, Ord, Structural)]
pub struct PoolGuid(pub u64);

/// Identifies a block within its pool.
#[derive(Debug, Copy, Clone, PartialEq, Eq, PartialOrd, Ord, Structural)]
pub struct BlockId(pub u64);

/// Where a cached block lives on the cache device.
#[derive(Debug, Copy, Clone, PartialEq, Eq, PartialOrd, Ord, Structural)]
pub struct DiskLocation {
    pub offset: u64,
}

/// Logical last-access counter. It only ever grows and is unrelated to
/// wall-clock time.
#[derive(Debug, Copy, Clone, PartialEq, Eq, PartialOrd, Ord, Structural)]
pub struct Atime(pub u64);

} // verus!
