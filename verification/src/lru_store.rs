//! The bounded least-recently-used store of fetched objects, kept in an
//! `lru::LruCache`, and what this library takes for granted about it.

use lru::LruCache;
use std::sync::Arc;
use vstd::prelude::*;

verus! {

/// The hasher that an `LruCache` uses unless told otherwise.
#[verifier::external_type_specification]
#[verifier::external_body]
pub struct ExLruHasher(lru::DefaultHasher);

/// The cache type of the `lru` crate.
#[verifier::external_type_specification]
#[verifier::external_body]
#[verifier::reject_recursive_types(K)]
#[verifier::reject_recursive_types(V)]
#[verifier::reject_recursive_types(S)]
pub struct ExLruCache<K, V, S>(LruCache<K, V, S>);

/// One cached object: its key and its bytes.
pub type Entry = (Seq<char>, Seq<u8>);

/// What a store holds, most recently used first.
pub uninterp spec fn lru_entries(store: LruCache<String, Arc<Vec<u8>>>) -> Seq<Entry>;

/// The number of entries that a store was created to hold at most.
pub uninterp spec fn lru_limit(store: LruCache<String, Arc<Vec<u8>>>) -> nat;

/// Whether some entry carries `key`.
pub open spec fn has_key(entries: Seq<Entry>, key: Seq<char>) -> bool {
    exists|i: int| 0 <= i < entries.len() && (#[trigger] entries[i]).0 == key
}

/// Whether position `i` is the first that carries `key`.
pub open spec fn is_first_at(entries: Seq<Entry>, key: Seq<char>, i: int) -> bool {
    &&& 0 <= i < entries.len()
    &&& entries[i].0 == key
    &&& forall|j: int| 0 <= j < i ==> (#[trigger] entries[j]).0 != key
}

/// The first position that carries `key`, where there is one.
pub open spec fn first_index(entries: Seq<Entry>, key: Seq<char>) -> int {
    choose|i: int| is_first_at(entries, key, i)
}

/// The bytes stored under `key`, where there are any.
pub open spec fn value_of(entries: Seq<Entry>, key: Seq<char>) -> Seq<u8> {
    entries[first_index(entries, key)].1
}

/// The entries after `key` was used: its entry has moved to the front, the
/// others keep their order. Without such an entry nothing changes.
pub open spec fn touched(entries: Seq<Entry>, key: Seq<char>) -> Seq<Entry> {
    if has_key(entries, key) {
        let i = first_index(entries, key);
        seq![entries[i]] + entries.remove(i)
    } else {
        entries
    }
}

/// The entries after `value` was stored under `key` in a store limited to
/// `limit` entries. A key that is present gets the new value and moves to the
/// front. A new key goes to the front, and where the store is full the least
/// recently used entry leaves. A store with limit zero takes nothing.
pub open spec fn stored(entries: Seq<Entry>, limit: nat, key: Seq<char>, value: Seq<u8>) -> Seq<
    Entry,
> {
    if has_key(entries, key) {
        seq![(key, value)] + entries.remove(first_index(entries, key))
    } else if limit == 0 {
        entries
    } else if entries.len() == limit {
        seq![(key, value)] + entries.drop_last()
    } else {
        seq![(key, value)] + entries
    }
}

/// The entries after the limit of a store was set to `limit`: where more are
/// held than the new limit allows, the least recently used ones leave.
pub open spec fn resized(entries: Seq<Entry>, limit: nat) -> Seq<Entry> {
    if entries.len() > limit {
        entries.subrange(0, limit as int)
    } else {
        entries
    }
}

/// Calls `LruCache::unbounded`, which sets no space aside. The new store is
/// empty and its limit is the largest there is.
#[verifier::external_body]
pub(crate) fn lru_unbounded() -> (store: LruCache<String, Arc<Vec<u8>>>)
    ensures
        lru_entries(store) == Seq::<Entry>::empty(),
        lru_limit(store) == usize::MAX,
{
    LruCache::unbounded()
}

/// Calls `LruCache::resize`. The limit becomes `limit`, and the entries
/// beyond it, counted from the most recently used, are dropped.
#[verifier::external_body]
pub(crate) fn lru_resize(store: &mut LruCache<String, Arc<Vec<u8>>>, limit: usize)
    ensures
        lru_limit(*final(store)) == limit,
        lru_entries(*final(store)) == resized(lru_entries(*old(store)), limit as nat),
{
    store.resize(limit);
}

/// Calls `LruCache::contains`. Says whether `key` is stored; the order of
/// use is not affected.
#[verifier::external_body]
pub(crate) fn lru_contains(store: &LruCache<String, Arc<Vec<u8>>>, key: &String) -> (present: bool)
    ensures
        present == has_key(lru_entries(*store), key@),
{
    store.contains(key)
}

/// Calls `LruCache::get` and hands out a clone of the shared buffer that it
/// finds. A key that is stored moves to the front; the limit stays.
#[verifier::external_body]
pub(crate) fn lru_get(store: &mut LruCache<String, Arc<Vec<u8>>>, key: &String) -> (found: Option<
    Arc<Vec<u8>>,
>)
    ensures
        lru_limit(*final(store)) == lru_limit(*old(store)),
        lru_entries(*final(store)) == touched(lru_entries(*old(store)), key@),
        found is Some == has_key(lru_entries(*old(store)), key@),
        found is Some ==> found->Some_0@ == value_of(lru_entries(*old(store)), key@),
{
    store.get(key).cloned()
}

/// Calls `LruCache::put` and drops the value that it replaced, if any. The
/// entries change as `stored` says; the limit stays.
#[verifier::external_body]
pub(crate) fn lru_put(store: &mut LruCache<String, Arc<Vec<u8>>>, key: String, value: Arc<Vec<u8>>)
    ensures
        lru_limit(*final(store)) == lru_limit(*old(store)),
        lru_entries(*final(store)) == stored(
            lru_entries(*old(store)),
            lru_limit(*old(store)),
            key@,
            value@,
        ),
{
    store.put(key, value);
}

} // verus!
