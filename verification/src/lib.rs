//! Metadata and access layer of a disk-backed cache that is filled from a
//! remote object store: the cache index with its recency histogram, and the
//! decision logic of a resilient, single-flight object-store client.

pub mod backoff;
pub mod base_types;
pub mod bulk_delete;
pub mod histogram;
pub mod index;
pub mod listing;
pub mod lru_store;
pub mod object_access;
pub mod object_cache;
pub mod retry;
