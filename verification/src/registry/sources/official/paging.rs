//! Pages of the official registry.
use vstd::prelude::*;

use crate::text::{decimal, text5};

verus! {

/// What every key of a cached search begins with.
pub const SEARCH_KEY_PREFIX: &'static str = "mcp_official:search:";

/// A best-effort upper bound on the page count: one page beyond the current
/// one while more results exist, which is enough to offer a "next" control
/// without walking the whole catalog.
pub open spec fn bound(page: u32, more: bool) -> u32 {
    if more && page < u32::MAX {
        (page + 1) as u32
    } else {
        page
    }
}

/// A best-effort upper bound on the page count.
#[must_use]
pub fn page_bound(page: u32, more: bool) -> (r: u32)
    ensures
        r == bound(page, more),
{
    if more && page < u32::MAX {
        page + 1
    } else {
        page
    }
}

/// The key a page of a search is cached under.
pub open spec fn cache_key(query: Seq<char>, page: u32, page_size: u32) -> Seq<char> {
    SEARCH_KEY_PREFIX@ + query + ":"@ + crate::text::decimal_text(page as nat) + ":"@
        + crate::text::decimal_text(page_size as nat)
}

/// The key a page of a search is cached under.
#[must_use]
pub fn search_cache_key(query: &str, page: u32, page_size: u32) -> (key: String)
    ensures
        key@ == cache_key(query@, page, page_size),
{
    let page = decimal(page as u64);
    let size = decimal(page_size as u64);
    let mut key = text5(SEARCH_KEY_PREFIX, query, ":", page.as_str(), ":");
    key.push_str(size.as_str());
    key
}

/// Whether a text holds digits alone.
spec fn digits(s: Seq<char>) -> bool {
    forall|i: int| 0 <= i < s.len() ==> '0' <= #[trigger] s[i] <= '9'
}

/// What stands before and after the last colon is determined by the whole,
/// where only digits follow it.
proof fn lemma_last_colon(a: Seq<char>, x: Seq<char>, b: Seq<char>, y: Seq<char>)
    requires
        digits(x),
        digits(y),
        a + ":"@ + x == b + ":"@ + y,
    ensures
        a == b,
        x == y,
{
    reveal_strlit(":");
    let left = a + ":"@ + x;
    let right = b + ":"@ + y;
    assert(left.len() == a.len() + 1 + x.len());
    assert(right.len() == b.len() + 1 + y.len());
    if a.len() < b.len() {
        assert(right[b.len() as int] == ':');
        assert(left[b.len() as int] == x[b.len() - a.len() - 1]);
    } else if b.len() < a.len() {
        assert(left[a.len() as int] == ':');
        assert(right[a.len() as int] == y[a.len() - b.len() - 1]);
    }
    assert(a =~= left.subrange(0, a.len() as int));
    assert(b =~= right.subrange(0, b.len() as int));
    assert(x =~= left.subrange(a.len() as int + 1, left.len() as int));
    assert(y =~= right.subrange(b.len() as int + 1, right.len() as int));
}

/// Two searches share a key only where they ask for the same page, of the same
/// size, of the same query.
pub proof fn a_cache_key_separates_searches(
    query: Seq<char>,
    page: u32,
    page_size: u32,
    other_query: Seq<char>,
    other_page: u32,
    other_size: u32,
)
    requires
        cache_key(query, page, page_size) == cache_key(other_query, other_page, other_size),
    ensures
        query == other_query,
        page == other_page,
        page_size == other_size,
{
    let prefix = SEARCH_KEY_PREFIX@;
    crate::text::lemma_decimal_digits(page as nat);
    crate::text::lemma_decimal_digits(page_size as nat);
    crate::text::lemma_decimal_digits(other_page as nat);
    crate::text::lemma_decimal_digits(other_size as nat);
    lemma_last_colon(
        prefix + query + ":"@ + crate::text::decimal_text(page as nat),
        crate::text::decimal_text(page_size as nat),
        prefix + other_query + ":"@ + crate::text::decimal_text(other_page as nat),
        crate::text::decimal_text(other_size as nat),
    );
    lemma_last_colon(
        prefix + query,
        crate::text::decimal_text(page as nat),
        prefix + other_query,
        crate::text::decimal_text(other_page as nat),
    );
    assert(query =~= (prefix + query).subrange(
        prefix.len() as int,
        (prefix + query).len() as int,
    ));
    assert(other_query =~= (prefix + other_query).subrange(
        prefix.len() as int,
        (prefix + other_query).len() as int,
    ));
    crate::text::decimal_is_injective(page as nat, other_page as nat);
    crate::text::decimal_is_injective(page_size as nat, other_size as nat);
}

} // verus!
