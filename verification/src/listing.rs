//! Paged listings of the store, and what can be read off a page.

use vstd::prelude::*;

verus! {

/// One object of a listing.
#[derive(Debug, Clone)]
pub struct ListedObject {
    pub key: Option<String>,
}

/// One page of a listing, as far as the client reads it.
#[derive(Debug, Clone)]
pub struct ListPage {
    /// The objects on this page, if the store sent any.
    pub contents: Option<Vec<ListedObject>>,
    /// The key prefixes up to the delimiter, if the store sent any.
    pub common_prefixes: Option<Vec<Option<String>>>,
    /// The token that asks for the next page. The last page has none.
    pub next_continuation_token: Option<String>,
}

/// Whether `page` is followed by another.
pub open spec fn has_next(page: ListPage) -> bool {
    page.next_continuation_token is Some
}

/// The pages that a listing collects when the store answers its successive
/// requests with `replies`: every page up to and including the first that
/// has no continuation token. Replies after that one are never asked for.
pub open spec fn collected(replies: Seq<ListPage>) -> Seq<ListPage>
    decreases replies.len(),
{
    if replies.len() == 0 {
        Seq::empty()
    } else if has_next(replies[0]) {
        seq![replies[0]] + collected(replies.skip(1))
    } else {
        seq![replies[0]]
    }
}

/// Takes the page that the store sent. The page is added after the pages
/// taken so far. The result is the token to ask for the next page with;
/// `None` says that this was the last page.
pub fn accept_page(results: &mut Vec<ListPage>, page: ListPage) -> (next: Option<String>)
    ensures
        final(results)@ == old(results)@.push(page),
        next == page.next_continuation_token,
{
    let next: Option<String> = match &page.next_continuation_token {
        Some(token) => Some(token.clone()),
        None => None,
    };
    results.push(page);
    next
}

/// A listing ends with the first page that has no continuation token, and
/// holds every page up to that one, in the order in which they came.
pub proof fn law_listing_collects_every_page(replies: Seq<ListPage>, last: int)
    requires
        0 <= last < replies.len(),
        forall|i: int| 0 <= i < last ==> has_next(#[trigger] replies[i]),
        !has_next(replies[last]),
    ensures
        collected(replies) == replies.subrange(0, last + 1),
    decreases last,
{
    if last > 0 {
        let rest = replies.skip(1);
        assert forall|i: int| 0 <= i < last - 1 implies has_next(#[trigger] rest[i]) by {
            assert(rest[i] == replies[i + 1]);
        }
        assert(rest[last - 1] == replies[last]);
        law_listing_collects_every_page(rest, last - 1);
        assert(seq![replies[0]] + rest.subrange(0, last) == replies.subrange(0, last + 1));
    } else {
        assert(seq![replies[0]] == replies.subrange(0, 1));
    }
}

/// Whether the object at position `i` of `objects` is named exactly `key`.
pub open spec fn names(objects: Seq<ListedObject>, i: int, key: Seq<char>) -> bool {
    objects[i].key is Some && objects[i].key->Some_0@ == key
}

/// Whether some object of `objects` is named exactly `key`.
pub open spec fn lists(objects: Seq<ListedObject>, key: Seq<char>) -> bool {
    exists|i: int| 0 <= i < objects.len() && #[trigger] names(objects, i, key)
}

/// Whether `page` lists an object named exactly `key`. An object whose name
/// only begins with `key` does not count.
pub open spec fn page_lists(page: ListPage, key: Seq<char>) -> bool {
    page.contents is Some && lists(page.contents->Some_0@, key)
}

/// Says whether some object of `objects` is named exactly `key`.
fn objects_have_key(objects: &Vec<ListedObject>, key: &str) -> (found: bool)
    ensures
        found == lists(objects@, key@),
{
    let wanted: String = key.to_owned();
    let mut i: usize = 0;
    while i < objects.len()
        invariant
            i <= objects.len(),
            wanted@ == key@,
            forall|k: int| 0 <= k < i ==> !#[trigger] names(objects@, k, key@),
        decreases objects.len() - i,
    {
        match &objects[i].key {
            Some(name) => {
                if *name == wanted {
                    assert(names(objects@, i as int, key@));
                    return true;
                }
            },
            None => {},
        }
        i += 1;
    }
    false
}

/// Says whether `page` lists an object named exactly `key`.
pub fn page_has_key(page: &ListPage, key: &str) -> (found: bool)
    ensures
        found == page_lists(*page, key@),
{
    match &page.contents {
        None => false,
        Some(objects) => objects_have_key(objects, key),
    }
}

} // verus!
