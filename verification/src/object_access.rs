//! What the object-store client puts into its requests: how keys are
//! prefixed, which bucket is addressed, and what each kind of request holds.
//!
//! Nothing here talks to the store. A caller sends the requests that are
//! built here, and reports back what the store replied.

use crate::listing::{page_has_key, page_lists, ListPage};
use crate::object_cache::{Lookup, ObjectCache, Outcome};
use std::sync::Arc;
use vstd::prelude::*;

verus! {

/// The namespace prefix that a configured value stands for: the value and a
/// slash, or nothing where none is configured.
pub open spec fn namespace_of(setting: Option<Seq<char>>) -> Seq<char> {
    match setting {
        Some(value) => value + seq!['/'],
        None => Seq::empty(),
    }
}

/// Turns the configured namespace, if any, into the prefix that every key is
/// given.
pub fn prefix_from_setting(setting: Option<&str>) -> (prefix: String)
    ensures
        prefix@ == namespace_of(
            match setting {
                Some(value) => Some(value@),
                None => None,
            },
        ),
{
    match setting {
        Some(value) => {
            let mut prefix: String = value.to_owned();
            proof {
                reveal_strlit("/");
                assert("/"@ == seq!['/']);
            }
            prefix.append("/");
            prefix
        },
        None => String::new(),
    }
}

/// The key under which the store knows `key`: the namespace prefix followed
/// by the key.
pub fn prefixed(prefix: &str, key: &str) -> (full: String)
    ensures
        full@ == prefix@ + key@,
{
    let mut full: String = prefix.to_owned();
    full.append(key);
    full
}

/// Whether `str::trim` counts `c` as whitespace: whether it has the Unicode
/// property White_Space.
pub uninterp spec fn whitespace(c: char) -> bool;

/// The number of whitespace characters that `text` begins with.
pub open spec fn leading_whitespace(text: Seq<char>) -> nat
    decreases text.len(),
{
    if text.len() > 0 && whitespace(text[0]) {
        1 + leading_whitespace(text.skip(1))
    } else {
        0
    }
}

/// The number of whitespace characters that `text` ends with.
pub open spec fn trailing_whitespace(text: Seq<char>) -> nat
    decreases text.len(),
{
    if text.len() > 0 && whitespace(text.last()) {
        1 + trailing_whitespace(text.drop_last())
    } else {
        0
    }
}

/// `text` without the whitespace that it begins and ends with. Of a text
/// that is all whitespace nothing is left.
pub open spec fn trimmed(text: Seq<char>) -> Seq<char> {
    if leading_whitespace(text) == text.len() {
        Seq::empty()
    } else {
        text.subrange(leading_whitespace(text) as int, text.len() - trailing_whitespace(text))
    }
}

/// Calls `str::trim`, which strips leading and trailing whitespace, and
/// copies what is left: the text from its first character that is no
/// whitespace to its last.
#[verifier::external_body]
fn trim(text: &str) -> (rest: String)
    ensures
        rest@ == trimmed(text@),
        rest@.len() > 0 ==> !whitespace(rest@.first()) && !whitespace(rest@.last()),
{
    text.trim().to_string()
}

/// Where the colon-separated field that starts at `from` ends: at the first
/// colon at or after `from`, or at the end of the text.
pub open spec fn field_end(text: Seq<char>, from: int) -> int
    decreases text.len() - from,
{
    if from >= text.len() {
        text.len() as int
    } else if text[from] == ':' {
        from
    } else {
        field_end(text, from + 1)
    }
}

/// A field ends at or after its start and within the text.
pub proof fn lemma_field_end_bounds(text: Seq<char>, from: int)
    requires
        0 <= from <= text.len(),
    ensures
        from <= field_end(text, from) <= text.len(),
    decreases text.len() - from,
{
    if from < text.len() && text[from] != ':' {
        lemma_field_end_bounds(text, from + 1);
    }
}

/// Finds where the field that starts at `from` ends.
fn find_field_end(text: &str, from: usize) -> (end: usize)
    requires
        from <= text@.len(),
    ensures
        end == field_end(text@, from as int),
        from <= end <= text@.len(),
{
    let len: usize = text.unicode_len();
    let mut i: usize = from;
    proof {
        lemma_field_end_bounds(text@, from as int);
    }
    while i < len
        invariant
            from <= i <= len,
            len == text@.len(),
            field_end(text@, i as int) == field_end(text@, from as int),
        decreases len - i,
    {
        if text.get_char(i) == ':' {
            return i;
        }
        i += 1;
    }
    i
}

/// An access key and its secret.
#[derive(Debug, Clone)]
pub struct Credentials {
    pub access_key_id: String,
    pub secret_access_key: String,
}

/// Whether a credentials text has the two fields that are needed: it holds a
/// colon.
pub open spec fn has_two_fields(text: Seq<char>) -> bool {
    field_end(text, 0) < text.len()
}

/// The first colon-separated field of a credentials text.
pub open spec fn first_field(text: Seq<char>) -> Seq<char> {
    text.subrange(0, field_end(text, 0))
}

/// The second colon-separated field of a credentials text that has one.
pub open spec fn second_field(text: Seq<char>) -> Seq<char> {
    text.subrange(field_end(text, 0) + 1, field_end(text, field_end(text, 0) + 1))
}

/// Splits `"id:secret"` at its colons and trims both fields. Fields after
/// the second are ignored. A text without a colon has no secret and gives
/// `None`.
pub fn parse_credentials(text: &str) -> (parsed: Option<Credentials>)
    ensures
        parsed is Some == has_two_fields(text@),
        parsed is Some ==> {
            &&& parsed->Some_0.access_key_id@ == trimmed(first_field(text@))
            &&& parsed->Some_0.secret_access_key@ == trimmed(second_field(text@))
        },
{
    let len: usize = text.unicode_len();
    let first_end: usize = find_field_end(text, 0);
    if first_end == len {
        return None;
    }
    let second_start: usize = first_end + 1;
    let second_end: usize = find_field_end(text, second_start);
    let access_key_id: String = trim(text.substring_char(0, first_end));
    let secret_access_key: String = trim(text.substring_char(second_start, second_end));
    Some(Credentials { access_key_id, secret_access_key })
}

/// A copy of an optional text.
fn copy_text(text: &Option<String>) -> (copy: Option<String>)
    ensures
        copy == *text,
{
    match text {
        Some(value) => Some(value.clone()),
        None => None,
    }
}

/// Asks for one object.
#[derive(Debug, Clone)]
pub struct GetRequest {
    pub bucket: String,
    pub key: String,
}

/// Asks to store one object of `content_length` bytes.
#[derive(Debug, Clone)]
pub struct PutRequest {
    pub bucket: String,
    pub key: String,
    pub content_length: usize,
}

/// Asks for one page of the keys that begin with `prefix`.
#[derive(Debug, Clone)]
pub struct ListRequest {
    pub bucket: String,
    pub continuation_token: Option<String>,
    pub delimiter: Option<String>,
    pub fetch_owner: Option<bool>,
    pub prefix: Option<String>,
}

/// Asks to delete a batch of objects.
#[derive(Debug, Clone)]
pub struct DeleteRequest {
    pub bucket: String,
    pub keys: Vec<String>,
    pub quiet: Option<bool>,
}

/// The keys of `keys`, each with `prefix` in front, in the same order.
pub open spec fn prefixed_keys(prefix: Seq<char>, keys: Seq<String>) -> Seq<Seq<char>> {
    Seq::new(keys.len(), |i: int| prefix + keys[i]@)
}

/// The texts that `keys` hold.
pub open spec fn key_texts(keys: Seq<String>) -> Seq<Seq<char>> {
    Seq::new(keys.len(), |i: int| keys[i]@)
}

/// The bucket and the namespace that a client works in.
#[derive(Debug, Clone)]
pub struct ObjectAccess {
    bucket_str: String,
    prefix: String,
}

impl ObjectAccess {
    /// The name of the bucket.
    pub closed spec fn bucket(&self) -> Seq<char> {
        self.bucket_str@
    }

    /// The prefix that every key is given.
    pub closed spec fn namespace(&self) -> Seq<char> {
        self.prefix@
    }

    /// A client for `bucket` whose keys are prefixed with `prefix`.
    pub fn new(bucket: &str, prefix: &str) -> (access: ObjectAccess)
        ensures
            access.bucket() == bucket@,
            access.namespace() == prefix@,
    {
        ObjectAccess { bucket_str: bucket.to_owned(), prefix: prefix.to_owned() }
    }

    /// The name of the bucket.
    pub fn bucket_name(&self) -> (name: &str)
        ensures
            name@ == self.bucket(),
    {
        self.bucket_str.as_str()
    }

    /// The key under which the store knows `key`.
    pub fn prefixed(&self, key: &str) -> (full: String)
        ensures
            full@ == self.namespace() + key@,
    {
        prefixed(self.prefix.as_str(), key)
    }

    /// The first step of reading `key`, taken while the cache is held: a
    /// cached object is handed out at once; a key that someone else is
    /// fetching makes the caller wait and ask again; any other key is
    /// registered as being fetched, and the result holds the request that the
    /// caller is to send. The cache changes as its `lookup` says.
    pub fn get_object(&self, cache: &mut ObjectCache, key: &str) -> (step: GetStep)
        ensures
            final(cache)@ == old(cache)@.lookup(key@),
            match old(cache)@.outcome(key@) {
                Outcome::Hit(bytes) => step matches GetStep::Hit(buffer) && buffer@ == bytes,
                Outcome::Wait => step is Wait,
                Outcome::Fetch => step matches GetStep::Fetch(request) && request.bucket@
                    == self.bucket() && request.key@ == self.namespace() + key@,
            },
    {
        match cache.lookup(key) {
            Lookup::Hit(buffer) => GetStep::Hit(buffer),
            Lookup::Wait => GetStep::Wait,
            Lookup::Fetch => GetStep::Fetch(
                GetRequest { bucket: self.bucket_str.clone(), key: self.prefixed(key) },
            ),
        }
    }

    /// The last step of reading `key`, taken by its fetcher while the cache
    /// is held: the chunks that arrived are put together, the object is
    /// cached and no longer counts as being fetched. The result shares its
    /// buffer with the cache. Waiters are to be woken only after this.
    pub fn finish_get_object(
        &self,
        cache: &mut ObjectCache,
        key: &str,
        content_length: Option<i64>,
        chunks: &Vec<Vec<u8>>,
    ) -> (buffer: Arc<Vec<u8>>)
        ensures
            buffer@ == joined(chunks@),
            final(cache)@ == old(cache)@.complete_fetch(key@, joined(chunks@)),
    {
        let buffer: Arc<Vec<u8>> = Arc::new(assemble_body(content_length, chunks));
        cache.complete_fetch(key, share(&buffer));
        buffer
    }

    /// The last step of reading a `key` that the store does not have, taken
    /// by its fetcher while the cache is held: the key no longer counts as
    /// being fetched, and nothing is cached for it. The read ends as a miss.
    /// Waiters are to be woken only after this; each of them then asks the
    /// store for itself.
    pub fn abandon_get_object(&self, cache: &mut ObjectCache, key: &str)
        ensures
            final(cache)@ == old(cache)@.abandon_fetch(key@),
    {
        cache.abandon_fetch(key);
    }

    /// Writing `data` under `key`, as far as it is decided while the cache is
    /// held: a cached key gets the new bytes, and the result is the request
    /// to send, which is sent whether or not the key was cached.
    pub fn put_object(&self, cache: &mut ObjectCache, key: &str, data: &Vec<u8>) -> (request:
        PutRequest)
        ensures
            final(cache)@ == old(cache)@.refresh_on_put(key@, data@),
            request.bucket@ == self.bucket(),
            request.key@ == self.namespace() + key@,
            request.content_length == data@.len(),
    {
        cache.refresh_on_put(key, data);
        PutRequest {
            bucket: self.bucket_str.clone(),
            key: self.prefixed(key),
            content_length: data.len(),
        }
    }

    /// The request for the page of a listing that follows
    /// `continuation_token`, or for the first page where there is none. The
    /// owner of the objects is never asked for.
    pub fn list_objects(
        &self,
        prefix: &str,
        delimiter: &Option<String>,
        continuation_token: &Option<String>,
    ) -> (request: ListRequest)
        ensures
            request.bucket@ == self.bucket(),
            request.continuation_token == *continuation_token,
            request.delimiter == *delimiter,
            request.fetch_owner == Some(false),
            request.prefix is Some,
            request.prefix->Some_0@ == self.namespace() + prefix@,
    {
        ListRequest {
            bucket: self.bucket_str.clone(),
            continuation_token: copy_text(continuation_token),
            delimiter: copy_text(delimiter),
            fetch_owner: Some(false),
            prefix: Some(self.prefixed(prefix)),
        }
    }

    /// The request that deletes all of `keys` at once and asks the store to
    /// report failures only. A batch holds at least one key.
    pub fn delete_objects(&self, keys: &Vec<String>) -> (request: DeleteRequest)
        requires
            keys@.len() > 0,
        ensures
            request.bucket@ == self.bucket(),
            key_texts(request.keys@) == prefixed_keys(self.namespace(), keys@),
            request.quiet == Some(true),
    {
        let mut full_keys: Vec<String> = Vec::with_capacity(keys.len());
        let mut i: usize = 0;
        while i < keys.len()
            invariant
                i <= keys.len(),
                full_keys@.len() == i,
                forall|k: int| 0 <= k < i ==> (#[trigger] full_keys@[k])@ == self.namespace() + keys@[k]@,
            decreases keys.len() - i,
        {
            full_keys.push(self.prefixed(keys[i].as_str()));
            i += 1;
        }
        assert(key_texts(full_keys@) == prefixed_keys(self.namespace(), keys@));
        DeleteRequest { bucket: self.bucket_str.clone(), keys: full_keys, quiet: Some(true) }
    }

    /// The request that deletes the single object `key`: a batch of one.
    pub fn delete_object(&self, key: &str) -> (request: DeleteRequest)
        ensures
            request.bucket@ == self.bucket(),
            key_texts(request.keys@) == seq![self.namespace() + key@],
            request.quiet == Some(true),
    {
        let mut keys: Vec<String> = Vec::new();
        keys.push(key.to_owned());
        let request: DeleteRequest = self.delete_objects(&keys);
        assert(key_texts(request.keys@) == seq![self.namespace() + key@]);
        request
    }

    /// Says whether the listing `results`, made with `key` as the prefix
    /// and without a delimiter, shows that the object `key` exists: whether
    /// it lists exactly the name under which the store knows `key`, which is
    /// the key with the namespace prefix in front. Such a listing also holds
    /// every longer name that begins like that; those do not count. The
    /// listing must have come as one page.
    pub fn object_exists(&self, results: &Vec<ListPage>, key: &str) -> (exists: bool)
        requires
            results@.len() == 1,
        ensures
            exists == page_lists(results@[0], self.namespace() + key@),
    {
        let full: String = self.prefixed(key);
        page_has_key(&results[0], full.as_str())
    }
}

/// Calls `Arc::clone`: the result points to the same buffer.
#[verifier::external_body]
fn share(buffer: &Arc<Vec<u8>>) -> (shared: Arc<Vec<u8>>)
    ensures
        shared == *buffer,
{
    Arc::clone(buffer)
}

/// What a caller that wants an object does next.
#[derive(Debug, Clone)]
pub enum GetStep {
    /// The object was cached: this is its buffer.
    Hit(Arc<Vec<u8>>),
    /// Someone else is fetching the object: wait for them, then ask again.
    Wait,
    /// Send this request, then report what arrived.
    Fetch(GetRequest),
}

/// The chunks of a body laid end to end.
pub open spec fn joined(chunks: Seq<Vec<u8>>) -> Seq<u8>
    decreases chunks.len(),
{
    if chunks.len() == 0 {
        Seq::empty()
    } else {
        joined(chunks.drop_last()) + chunks.last()@
    }
}

/// Bodies announced as longer than this get no space set aside in advance.
pub const MAX_RESERVED_BYTES: i64 = 0x4000_0000;

/// Puts the chunks in which a body arrived together, in order. The
/// announced length, where there is one, only says how much space to set
/// aside at the start: the body is what arrived.
pub fn assemble_body(content_length: Option<i64>, chunks: &Vec<Vec<u8>>) -> (body: Vec<u8>)
    ensures
        body@ == joined(chunks@),
{
    let mut body: Vec<u8> = match content_length {
        Some(length) => {
            if 0 <= length && length <= MAX_RESERVED_BYTES {
                Vec::with_capacity(length as usize)
            } else {
                Vec::new()
            }
        },
        None => Vec::new(),
    };
    let mut i: usize = 0;
    while i < chunks.len()
        invariant
            i <= chunks.len(),
            body@ == joined(chunks@.subrange(0, i as int)),
        decreases chunks.len() - i,
    {
        body.extend_from_slice(chunks[i].as_slice());
        proof {
            let taken = chunks@.subrange(0, i + 1);
            assert(taken.drop_last() == chunks@.subrange(0, i as int));
            assert(taken.last() == chunks@[i as int]);
        }
        i += 1;
    }
    assert(chunks@.subrange(0, i as int) == chunks@);
    body
}

} // verus!
