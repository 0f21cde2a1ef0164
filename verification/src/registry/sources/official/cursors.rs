//! Which cursor leads to which page.
//!
//! The official registry pages by cursor, and a caller asks for a page by
//! number. Remembering the cursors that earlier pages gave makes a later page
//! one request.
use vstd::hash_map::StringHashMap;
use vstd::prelude::*;

use super::paging::search_cache_key;

verus! {

/// The cursors that are known, by query, page and page size.
pub struct CursorCache {
    cursors: StringHashMap<String>,
}

impl View for CursorCache {
    type V = Map<Seq<char>, String>;

    closed spec fn view(&self) -> Map<Seq<char>, String> {
        self.cursors@
    }
}

/// The cursor that leads to a page, where it is known.
pub open spec fn known(
    cache: Map<Seq<char>, String>,
    query: Seq<char>,
    page: u32,
    page_size: u32,
) -> Option<Seq<char>> {
    let key = super::paging::cache_key(query, page, page_size);
    if cache.contains_key(key) {
        Some(cache[key]@)
    } else {
        None
    }
}

impl CursorCache {
    /// A cache that knows no cursor.
    #[must_use]
    pub fn new() -> (r: CursorCache)
        ensures
            r@ == Map::<Seq<char>, String>::empty(),
    {
        CursorCache { cursors: StringHashMap::new() }
    }

    /// The cursor that leads to a page, where it is known.
    #[must_use]
    pub fn cursor_for(&self, query: &str, page: u32, page_size: u32) -> (r: Option<&String>)
        ensures
            match r {
                Some(cursor) => known(self@, query@, page, page_size) == Some(cursor@),
                None => known(self@, query@, page, page_size) is None,
            },
    {
        let key = search_cache_key(query, page, page_size);
        self.cursors.get(key.as_str())
    }

    /// Remembers the cursor that leads to a page.
    pub fn note(&mut self, query: &str, page: u32, page_size: u32, cursor: String)
        ensures
            final(self)@ == old(self)@.insert(
                super::paging::cache_key(query@, page, page_size),
                cursor,
            ),
    {
        let key = search_cache_key(query, page, page_size);
        self.cursors.insert(key, cursor);
    }
}

/// A cursor that was noted is the one that is found, and noting it changes
/// what is found of no other page.
pub proof fn a_noted_cursor_is_found_for_its_page_alone(
    cache: Map<Seq<char>, String>,
    query: Seq<char>,
    page: u32,
    page_size: u32,
    cursor: String,
    other_query: Seq<char>,
    other_page: u32,
    other_size: u32,
)
    ensures
        ({
            let noted = cache.insert(super::paging::cache_key(query, page, page_size), cursor);
            known(noted, other_query, other_page, other_size) == if (
                other_query,
                other_page,
                other_size,
            ) == (query, page, page_size) {
                Some(cursor@)
            } else {
                known(cache, other_query, other_page, other_size)
            }
        }),
{
    if super::paging::cache_key(query, page, page_size) == super::paging::cache_key(
        other_query,
        other_page,
        other_size,
    ) {
        super::paging::a_cache_key_separates_searches(
            query,
            page,
            page_size,
            other_query,
            other_page,
            other_size,
        );
    }
}

} // verus!
