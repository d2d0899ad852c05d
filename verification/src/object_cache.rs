//! Single-flight object cache: a bounded store of recently fetched objects
//! and a registry of the keys that are being fetched right now.
//!
//! The cache itself never waits and never fetches. A caller holds it under a
//! lock, asks what to do for a key, lets go of the lock, and does it.

use crate::lru_store::{
    first_index, has_key, is_first_at, lru_contains, lru_entries, lru_get, lru_limit, lru_put,
    lru_resize, lru_unbounded, stored, touched, value_of, Entry,
};
use lru::LruCache;
use std::sync::Arc;
use vstd::hash_set::StringHashSet;
use vstd::prelude::*;

verus! {

/// What a caller that asked for a key does next, in the model.
pub enum Outcome {
    /// The object is cached: these are its bytes.
    Hit(Seq<u8>),
    /// Someone else is fetching the object: wait for them, then ask again.
    Wait,
    /// Nobody has the object: fetch it, then report the bytes.
    Fetch,
}

/// What a caller that asked for a key does next.
#[derive(Debug, Clone)]
pub enum Lookup {
    /// The object is cached: this is its buffer.
    Hit(Arc<Vec<u8>>),
    /// Someone else is fetching the object: wait for them, then ask again.
    Wait,
    /// Nobody has the object: fetch it, then report the bytes.
    Fetch,
}

impl View for Lookup {
    type V = Outcome;

    open spec fn view(&self) -> Outcome {
        match self {
            Lookup::Hit(buffer) => Outcome::Hit(buffer@),
            Lookup::Wait => Outcome::Wait,
            Lookup::Fetch => Outcome::Fetch,
        }
    }
}

/// Mathematical content of the cache.
pub struct CacheView {
    /// The cached objects, most recently used first.
    pub entries: Seq<Entry>,
    /// The most entries that are kept.
    pub limit: nat,
    /// The keys that are being fetched.
    pub reading: Set<Seq<char>>,
}

impl CacheView {
    /// A cache that holds nothing and has nothing in flight.
    pub open spec fn empty(limit: nat) -> CacheView {
        CacheView { entries: Seq::empty(), limit, reading: Set::empty() }
    }

    /// Whether `key` is cached.
    pub open spec fn cached(self, key: Seq<char>) -> bool {
        has_key(self.entries, key)
    }

    /// Whether `key` is being fetched.
    pub open spec fn in_flight(self, key: Seq<char>) -> bool {
        self.reading.contains(key)
    }

    /// No key is cached and in flight at once.
    pub open spec fn disjoint(self) -> bool {
        forall|key: Seq<char>| !(self.cached(key) && self.in_flight(key))
    }

    /// No more entries are cached than the limit allows.
    pub open spec fn bounded(self) -> bool {
        self.entries.len() <= self.limit
    }

    /// What a caller that asks for `key` is told.
    pub open spec fn outcome(self, key: Seq<char>) -> Outcome {
        if self.cached(key) {
            Outcome::Hit(value_of(self.entries, key))
        } else if self.in_flight(key) {
            Outcome::Wait
        } else {
            Outcome::Fetch
        }
    }

    /// The cache after a caller asked for `key`: a cached key counts as
    /// used, a waiter changes nothing, and a fetcher is registered.
    pub open spec fn lookup(self, key: Seq<char>) -> CacheView {
        if self.cached(key) {
            CacheView { entries: touched(self.entries, key), ..self }
        } else if self.in_flight(key) {
            self
        } else {
            CacheView { reading: self.reading.insert(key), ..self }
        }
    }

    /// The cache after the fetcher of `key` reported `data`.
    pub open spec fn complete_fetch(self, key: Seq<char>, data: Seq<u8>) -> CacheView {
        CacheView {
            entries: stored(self.entries, self.limit, key, data),
            limit: self.limit,
            reading: self.reading.remove(key),
        }
    }

    /// The cache after the fetcher of `key` gave up: the key is no longer
    /// in flight, and nothing else changes.
    pub open spec fn abandon_fetch(self, key: Seq<char>) -> CacheView {
        CacheView { reading: self.reading.remove(key), ..self }
    }

    /// The cache after `data` was written to the store under `key`: a cached
    /// key gets the new bytes, nothing else changes.
    pub open spec fn refresh_on_put(self, key: Seq<char>, data: Seq<u8>) -> CacheView {
        if self.cached(key) {
            CacheView { entries: stored(self.entries, self.limit, key, data), ..self }
        } else {
            self
        }
    }

    /// What holds of every cache: it keeps at least one entry and never more
    /// than its limit, and no key is cached and in flight at once.
    pub open spec fn valid(self) -> bool {
        self.limit > 0 && self.bounded() && self.disjoint()
    }

    /// The cache after `event`.
    pub open spec fn after(self, event: Event) -> CacheView {
        match event {
            Event::Lookup(key) => self.lookup(key),
            Event::CompleteFetch(key, data) => self.complete_fetch(key, data),
            Event::AbandonFetch(key) => self.abandon_fetch(key),
            Event::RefreshOnPut(key, data) => self.refresh_on_put(key, data),
        }
    }

    /// The cache after `events`, in their order.
    pub open spec fn after_all(self, events: Seq<Event>) -> CacheView
        decreases events.len(),
    {
        if events.len() == 0 {
            self
        } else {
            self.after(events[0]).after_all(events.skip(1))
        }
    }

    /// The number of callers that are told to fetch `key` in the course of
    /// `events`: the number of fetches of `key` that are made from the store.
    pub open spec fn fetches(self, events: Seq<Event>, key: Seq<char>) -> nat
        decreases events.len(),
    {
        if events.len() == 0 {
            0
        } else {
            let here: nat = if events[0] == Event::Lookup(key) && self.outcome(key)
                == Outcome::Fetch {
                1
            } else {
                0
            };
            here + self.after(events[0]).fetches(events.skip(1), key)
        }
    }
}

/// One thing that happens to the cache.
pub enum Event {
    /// A caller asks for a key.
    Lookup(Seq<char>),
    /// The fetcher of a key reports its bytes.
    CompleteFetch(Seq<char>, Seq<u8>),
    /// The fetcher of a key gives up.
    AbandonFetch(Seq<char>),
    /// Bytes are written to the store under a key.
    RefreshOnPut(Seq<char>, Seq<u8>),
}

/// Whether `event` ends a fetch of `key`.
pub open spec fn ends_fetch(event: Event, key: Seq<char>) -> bool {
    match event {
        Event::CompleteFetch(k, _) => k == key,
        Event::AbandonFetch(k) => k == key,
        _ => false,
    }
}

/// Whether no event of `events` ends a fetch of `key`.
pub open spec fn no_fetch_ends(events: Seq<Event>, key: Seq<char>) -> bool {
    forall|i: int| 0 <= i < events.len() ==> !ends_fetch(#[trigger] events[i], key)
}

/// Whether some caller asks for `key` in the course of `events`.
pub open spec fn asked_for(events: Seq<Event>, key: Seq<char>) -> bool {
    exists|i: int| 0 <= i < events.len() && #[trigger] events[i] == Event::Lookup(key)
}

/// Whether every event of `events` is a caller asking for `key`.
pub open spec fn only_asks_for(events: Seq<Event>, key: Seq<char>) -> bool {
    forall|i: int| 0 <= i < events.len() ==> #[trigger] events[i] == Event::Lookup(key)
}

/// Among the positions that carry `key`, one is the first.
proof fn lemma_some_first(entries: Seq<Entry>, key: Seq<char>, i: int)
    requires
        0 <= i < entries.len(),
        entries[i].0 == key,
    ensures
        exists|j: int| is_first_at(entries, key, j),
    decreases i,
{
    if forall|j: int| 0 <= j < i ==> (#[trigger] entries[j]).0 != key {
        assert(is_first_at(entries, key, i));
    } else {
        let j = choose|j: int| 0 <= j < i && (#[trigger] entries[j]).0 == key;
        lemma_some_first(entries, key, j);
    }
}

/// Where `key` is present, `first_index` is the first position that carries
/// it.
pub proof fn lemma_first_index(entries: Seq<Entry>, key: Seq<char>)
    requires
        has_key(entries, key),
    ensures
        is_first_at(entries, key, first_index(entries, key)),
{
    let i = choose|i: int| 0 <= i < entries.len() && (#[trigger] entries[i]).0 == key;
    lemma_some_first(entries, key, i);
}

/// An entry at the front is the one that its key finds.
pub proof fn lemma_front_is_found(entries: Seq<Entry>)
    requires
        entries.len() > 0,
    ensures
        has_key(entries, entries[0].0),
        first_index(entries, entries[0].0) == 0,
        value_of(entries, entries[0].0) == entries[0].1,
{
    let key = entries[0].0;
    assert(is_first_at(entries, key, 0));
    let i = first_index(entries, key);
    assert(is_first_at(entries, key, i));
    if i > 0 {
        assert(entries[0].0 != key);
    }
}

/// Using a key brings in no key that was not there, and loses none.
pub proof fn lemma_touched_keys(entries: Seq<Entry>, key: Seq<char>, other: Seq<char>)
    ensures
        has_key(touched(entries, key), other) == has_key(entries, other),
        touched(entries, key).len() == entries.len(),
{
    if has_key(entries, key) {
        lemma_first_index(entries, key);
        let i = first_index(entries, key);
        let after = touched(entries, key);
        let rest = entries.remove(i);
        assert(after == seq![entries[i]] + rest);
        if has_key(after, other) {
            let j = choose|j: int| 0 <= j < after.len() && (#[trigger] after[j]).0 == other;
            if j == 0 {
                assert(entries[i].0 == other);
            } else if j - 1 < i {
                assert(after[j] == entries[j - 1]);
                assert(entries[j - 1].0 == other);
            } else {
                assert(after[j] == entries[j]);
                assert(entries[j].0 == other);
            }
        }
        if has_key(entries, other) {
            let j = choose|j: int| 0 <= j < entries.len() && (#[trigger] entries[j]).0 == other;
            if j == i {
                assert(after[0].0 == other);
            } else if j < i {
                assert(after[j + 1] == entries[j]);
                assert(after[j + 1].0 == other);
            } else {
                assert(after[j] == entries[j]);
                assert(after[j].0 == other);
            }
        }
    }
}

/// Storing under a key brings in no other key.
pub proof fn lemma_stored_keys(
    entries: Seq<Entry>,
    limit: nat,
    key: Seq<char>,
    value: Seq<u8>,
    other: Seq<char>,
)
    ensures
        has_key(stored(entries, limit, key, value), other) ==> other == key || has_key(
            entries,
            other,
        ),
{
    let after = stored(entries, limit, key, value);
    if has_key(after, other) && other != key {
        let j = choose|j: int| 0 <= j < after.len() && (#[trigger] after[j]).0 == other;
        if has_key(entries, key) {
            lemma_first_index(entries, key);
            let i = first_index(entries, key);
            assert(after == seq![(key, value)] + entries.remove(i));
            assert(j > 0);
            if j - 1 < i {
                assert(after[j] == entries[j - 1]);
                assert(entries[j - 1].0 == other);
            } else {
                assert(after[j] == entries[j]);
                assert(entries[j].0 == other);
            }
        } else if limit == 0 {
        } else if entries.len() == limit {
            assert(after == seq![(key, value)] + entries.drop_last());
            assert(j > 0);
            assert(after[j] == entries[j - 1]);
            assert(entries[j - 1].0 == other);
        } else {
            assert(after == seq![(key, value)] + entries);
            assert(j > 0);
            assert(after[j] == entries[j - 1]);
            assert(entries[j - 1].0 == other);
        }
    }
}

/// After storing under a key in a store that takes anything, or that holds
/// the key already, the key finds the stored value.
pub proof fn lemma_stored_is_found(entries: Seq<Entry>, limit: nat, key: Seq<char>, value: Seq<u8>)
    requires
        limit > 0 || has_key(entries, key),
    ensures
        has_key(stored(entries, limit, key, value), key),
        value_of(stored(entries, limit, key, value), key) == value,
{
    let after = stored(entries, limit, key, value);
    assert(after.len() > 0 && after[0] == (key, value));
    lemma_front_is_found(after);
}

/// Storing keeps a store within its limit.
pub proof fn lemma_stored_bounded(entries: Seq<Entry>, limit: nat, key: Seq<char>, value: Seq<u8>)
    requires
        entries.len() <= limit,
    ensures
        stored(entries, limit, key, value).len() <= limit,
{
    if has_key(entries, key) {
        lemma_first_index(entries, key);
    }
}

/// The single-flight object cache.
pub struct ObjectCache {
    cache: LruCache<String, Arc<Vec<u8>>>,
    reading: StringHashSet,
}

impl View for ObjectCache {
    type V = CacheView;

    closed spec fn view(&self) -> CacheView {
        CacheView {
            entries: lru_entries(self.cache),
            limit: lru_limit(self.cache),
            reading: self.reading@,
        }
    }
}

impl ObjectCache {
    /// An empty cache that keeps at most `limit` objects, and at least one:
    /// what a fetcher stores is what its waiters then find. No space is set
    /// aside in advance.
    pub fn new(limit: usize) -> (cache: ObjectCache)
        requires
            limit > 0,
        ensures
            cache@ == CacheView::empty(limit as nat),
    {
        let mut cache: LruCache<String, Arc<Vec<u8>>> = lru_unbounded();
        lru_resize(&mut cache, limit);
        ObjectCache { cache, reading: StringHashSet::new() }
    }

    /// Tells a caller that wants `key` what to do, and records it: a cached
    /// object is handed out and counts as used; a key that is being fetched
    /// makes the caller a waiter; any other key makes the caller its fetcher
    /// and is registered as being fetched.
    pub fn lookup(&mut self, key: &str) -> (lookup: Lookup)
        ensures
            lookup@ == old(self)@.outcome(key@),
            final(self)@ == old(self)@.lookup(key@),
    {
        let owned: String = key.to_owned();
        match lru_get(&mut self.cache, &owned) {
            Some(buffer) => Lookup::Hit(buffer),
            None => {
                if self.reading.contains(key) {
                    Lookup::Wait
                } else {
                    self.reading.insert(owned);
                    Lookup::Fetch
                }
            },
        }
    }

    /// Records that the fetcher of `key` got `data`: the object is cached
    /// and the key is no longer being fetched. Waiters are to be woken only
    /// after this.
    pub fn complete_fetch(&mut self, key: &str, data: Arc<Vec<u8>>)
        ensures
            final(self)@ == old(self)@.complete_fetch(key@, data@),
    {
        lru_put(&mut self.cache, key.to_owned(), data);
        self.reading.remove(key);
    }

    /// Records that the fetcher of `key` came back without the object: the
    /// key is no longer being fetched, and the cached objects stay as they
    /// are. Waiters are to be woken only after this.
    pub fn abandon_fetch(&mut self, key: &str)
        ensures
            final(self)@ == old(self)@.abandon_fetch(key@),
    {
        self.reading.remove(key);
    }

    /// Records that `data` is being written to the store under `key`. A
    /// cached key gets a copy of the new bytes; a key that is not cached is
    /// not brought in. Says whether the key was cached.
    pub fn refresh_on_put(&mut self, key: &str, data: &Vec<u8>) -> (was_cached: bool)
        ensures
            was_cached == old(self)@.cached(key@),
            final(self)@ == old(self)@.refresh_on_put(key@, data@),
    {
        let owned: String = key.to_owned();
        if lru_contains(&self.cache, &owned) {
            lru_put(&mut self.cache, owned, Arc::new(copy_bytes(data)));
            true
        } else {
            false
        }
    }
}

/// A copy of `bytes`.
fn copy_bytes(bytes: &Vec<u8>) -> (copy: Vec<u8>)
    ensures
        copy@ == bytes@,
{
    let mut copy: Vec<u8> = Vec::with_capacity(bytes.len());
    copy.extend_from_slice(bytes.as_slice());
    copy
}

/// A new cache is valid.
pub proof fn law_new_cache_is_valid(limit: nat)
    requires
        limit > 0,
    ensures
        CacheView::empty(limit).valid(),
{
}

/// Whatever happens to a valid cache, it stays valid: it never grows beyond
/// its limit, and no key is ever cached and in flight at once.
pub proof fn law_cache_stays_valid(cache: CacheView, event: Event)
    requires
        cache.valid(),
    ensures
        cache.after(event).valid(),
        cache.after(event).limit == cache.limit,
{
    let next = cache.after(event);
    match event {
        Event::Lookup(key) => {
            lemma_touched_keys(cache.entries, key, key);
            assert forall|other: Seq<char>| !(next.cached(other) && next.in_flight(other)) by {
                lemma_touched_keys(cache.entries, key, other);
                assert(!(cache.cached(other) && cache.in_flight(other)));
            }
        },
        Event::CompleteFetch(key, data) => {
            lemma_stored_bounded(cache.entries, cache.limit, key, data);
            assert forall|other: Seq<char>| !(next.cached(other) && next.in_flight(other)) by {
                lemma_stored_keys(cache.entries, cache.limit, key, data, other);
                assert(!(cache.cached(other) && cache.in_flight(other)));
            }
        },
        Event::AbandonFetch(key) => {
            assert forall|other: Seq<char>| !(next.cached(other) && next.in_flight(other)) by {
                assert(!(cache.cached(other) && cache.in_flight(other)));
            }
        },
        Event::RefreshOnPut(key, data) => {
            lemma_stored_bounded(cache.entries, cache.limit, key, data);
            assert forall|other: Seq<char>| !(next.cached(other) && next.in_flight(other)) by {
                lemma_stored_keys(cache.entries, cache.limit, key, data, other);
                assert(!(cache.cached(other) && cache.in_flight(other)));
                assert(!(cache.cached(key) && cache.in_flight(key)));
            }
        },
    }
}

/// Whatever happens to a valid cache, however often, it stays valid.
pub proof fn law_cache_is_always_valid(cache: CacheView, events: Seq<Event>)
    requires
        cache.valid(),
    ensures
        cache.after_all(events).valid(),
        cache.after_all(events).limit == cache.limit,
    decreases events.len(),
{
    if events.len() > 0 {
        law_cache_stays_valid(cache, events[0]);
        law_cache_is_always_valid(cache.after(events[0]), events.skip(1));
    }
}

/// A key that is in flight and not cached stays so through any event that
/// does not end its fetch, and whoever asks for it meanwhile is told to wait.
pub proof fn lemma_in_flight_step(cache: CacheView, event: Event, key: Seq<char>)
    requires
        cache.in_flight(key),
        !cache.cached(key),
        !ends_fetch(event, key),
    ensures
        cache.outcome(key) == Outcome::Wait,
        cache.after(event).in_flight(key),
        !cache.after(event).cached(key),
{
    match event {
        Event::Lookup(other) => {
            lemma_touched_keys(cache.entries, other, key);
        },
        Event::CompleteFetch(other, data) => {
            lemma_stored_keys(cache.entries, cache.limit, other, data, key);
        },
        Event::AbandonFetch(other) => {},
        Event::RefreshOnPut(other, data) => {
            lemma_stored_keys(cache.entries, cache.limit, other, data, key);
        },
    }
}

/// A key that is neither cached nor in flight stays so through any event but
/// a caller asking for it or its fetch ending.
proof fn lemma_cold_step(cache: CacheView, event: Event, key: Seq<char>)
    requires
        !cache.in_flight(key),
        !cache.cached(key),
        !ends_fetch(event, key),
        event != Event::Lookup(key),
    ensures
        !cache.after(event).in_flight(key),
        !cache.after(event).cached(key),
{
    match event {
        Event::Lookup(other) => {
            lemma_touched_keys(cache.entries, other, key);
            assert(other != key);
        },
        Event::CompleteFetch(other, data) => {
            lemma_stored_keys(cache.entries, cache.limit, other, data, key);
        },
        Event::AbandonFetch(other) => {},
        Event::RefreshOnPut(other, data) => {
            lemma_stored_keys(cache.entries, cache.limit, other, data, key);
        },
    }
}

/// While a key is in flight, nobody is told to fetch it.
pub proof fn lemma_no_fetch_while_in_flight(cache: CacheView, events: Seq<Event>, key: Seq<char>)
    requires
        cache.in_flight(key),
        !cache.cached(key),
        no_fetch_ends(events, key),
    ensures
        cache.fetches(events, key) == 0,
        cache.after_all(events).in_flight(key),
        !cache.after_all(events).cached(key),
    decreases events.len(),
{
    if events.len() > 0 {
        let rest = events.skip(1);
        assert(!ends_fetch(events[0], key));
        lemma_in_flight_step(cache, events[0], key);
        assert forall|i: int| 0 <= i < rest.len() implies !ends_fetch(#[trigger] rest[i], key) by {
            assert(rest[i] == events[i + 1]);
        }
        lemma_no_fetch_while_in_flight(cache.after(events[0]), rest, key);
    }
}

/// Single flight. From the moment a key is neither cached nor in flight
/// until its fetch ends, whatever else happens to the cache and however many
/// callers ask for the key, exactly one of them is told to fetch it: the
/// first. Where nobody asks, nobody fetches.
pub proof fn law_one_fetch_however_many_callers(
    cache: CacheView,
    events: Seq<Event>,
    key: Seq<char>,
)
    requires
        !cache.cached(key),
        !cache.in_flight(key),
        no_fetch_ends(events, key),
    ensures
        cache.fetches(events, key) == (if asked_for(events, key) {
            1nat
        } else {
            0nat
        }),
        !cache.after_all(events).cached(key),
        cache.after_all(events).in_flight(key) == asked_for(events, key),
    decreases events.len(),
{
    if events.len() > 0 {
        let rest = events.skip(1);
        assert(!ends_fetch(events[0], key));
        assert forall|i: int| 0 <= i < rest.len() implies !ends_fetch(#[trigger] rest[i], key) by {
            assert(rest[i] == events[i + 1]);
        }
        if events[0] == Event::Lookup(key) {
            assert(asked_for(events, key));
            lemma_no_fetch_while_in_flight(cache.after(events[0]), rest, key);
        } else {
            lemma_cold_step(cache, events[0], key);
            law_one_fetch_however_many_callers(cache.after(events[0]), rest, key);
            if asked_for(rest, key) {
                let i = choose|i: int| 0 <= i < rest.len() && #[trigger] rest[i] == Event::Lookup(key);
                assert(events[i + 1] == Event::Lookup(key));
            }
            if asked_for(events, key) {
                let i = choose|i: int|
                    0 <= i < events.len() && #[trigger] events[i] == Event::Lookup(key);
                assert(rest[i - 1] == Event::Lookup(key));
            }
        }
    }
}

/// Once the fetcher has reported the bytes, the key is no longer in flight,
/// and a caller that asks for the key gets exactly those bytes and leaves the
/// cache as it is.
pub proof fn law_fetched_bytes_reach_the_next_caller(
    cache: CacheView,
    key: Seq<char>,
    data: Seq<u8>,
)
    requires
        cache.limit > 0,
    ensures
        !cache.complete_fetch(key, data).in_flight(key),
        cache.complete_fetch(key, data).outcome(key) == Outcome::Hit(data),
        cache.complete_fetch(key, data).lookup(key) == cache.complete_fetch(key, data),
{
    let done = cache.complete_fetch(key, data);
    lemma_stored_is_found(cache.entries, cache.limit, key, data);
    assert(done.entries.len() > 0 && done.entries[0] == (key, data));
    lemma_front_is_found(done.entries);
    assert(touched(done.entries, key) =~= done.entries);
}

/// Once the fetcher has reported the bytes, every caller that asks for the
/// key, however many there are, gets exactly those bytes, and none of them
/// is told to fetch.
pub proof fn law_fetched_bytes_reach_every_caller(
    cache: CacheView,
    key: Seq<char>,
    data: Seq<u8>,
    callers: Seq<Event>,
)
    requires
        cache.limit > 0,
        only_asks_for(callers, key),
    ensures
        cache.complete_fetch(key, data).after_all(callers) == cache.complete_fetch(key, data),
        cache.complete_fetch(key, data).outcome(key) == Outcome::Hit(data),
        cache.complete_fetch(key, data).fetches(callers, key) == 0,
    decreases callers.len(),
{
    let done = cache.complete_fetch(key, data);
    law_fetched_bytes_reach_the_next_caller(cache, key, data);
    lemma_hits_change_nothing(done, key, callers);
}

/// Callers that ask for a key whose lookup leaves the cache as it is and is
/// a hit leave the cache as it is, and none of them is told to fetch.
proof fn lemma_hits_change_nothing(cache: CacheView, key: Seq<char>, callers: Seq<Event>)
    requires
        cache.lookup(key) == cache,
        cache.cached(key),
        only_asks_for(callers, key),
    ensures
        cache.after_all(callers) == cache,
        cache.fetches(callers, key) == 0,
    decreases callers.len(),
{
    if callers.len() > 0 {
        let rest = callers.skip(1);
        assert(callers[0] == Event::Lookup(key));
        assert forall|i: int| 0 <= i < rest.len() implies #[trigger] rest[i] == Event::Lookup(
            key,
        ) by {
            assert(rest[i] == callers[i + 1]);
        }
        lemma_hits_change_nothing(cache, key, rest);
    }
}

/// After a fetcher gave up, the key is no longer in flight and no more
/// cached than before: the next caller that asks for a key that is not
/// cached is told to fetch it.
pub proof fn law_abandoned_fetch_is_made_again(cache: CacheView, key: Seq<char>)
    requires
        !cache.cached(key),
    ensures
        !cache.abandon_fetch(key).in_flight(key),
        cache.abandon_fetch(key).entries == cache.entries,
        cache.abandon_fetch(key).outcome(key) == Outcome::Fetch,
{
}

/// Writing to a key that is cached refreshes the cache: a read that follows
/// is served from the cache with exactly the bytes that were written.
pub proof fn law_write_through(cache: CacheView, key: Seq<char>, data: Seq<u8>)
    requires
        cache.cached(key),
    ensures
        cache.refresh_on_put(key, data).outcome(key) == Outcome::Hit(data),
{
    lemma_stored_is_found(cache.entries, cache.limit, key, data);
}

} // verus!
