//! Browsing the catalogs.
//!
//! A source that fails takes the search with it, rather than silently leaving
//! a partial catalog that reads as "this server does not exist".
use vstd::prelude::*;

use super::install::collect_required_env_keys;
use super::naming::{require_non_empty, split_routing_name};
use crate::bus::{RegistrySearchPage, RegistryServerDetail, RegistryServerSummary};
use crate::error::Error;
use crate::registry::sources::types::{Registries, RegistrySource, SearchRequest};

verus! {

/// What a search needs to know next.
#[derive(Debug)]
pub enum SearchStep {
    /// The rows that one source has, and its bound on the number of pages;
    /// answer with [`Asking::answered`].
    Ask(Asking),
    /// Nothing: this is what the search came to.
    Done(Result<RegistrySearchPage, Error>),
}

/// See [`SearchStep::Ask`].
#[derive(Debug)]
pub struct Asking {
    /// What to ask now.
    pub request: SearchRequest,
    /// What to ask afterwards, in order.
    pub later: Vec<SearchRequest>,
    /// The rows so far.
    pub servers: Vec<RegistryServerSummary>,
    /// The page, counted from one.
    pub page: u32,
    /// The highest bound on the number of pages so far.
    pub total_pages: u32,
}

/// The larger of two.
pub open spec fn larger(a: u32, b: u32) -> u32 {
    if a < b {
        b
    } else {
        a
    }
}

/// How a search begins: with the official catalog, and every other source that
/// takes part after it.
pub open spec fn begins(
    sources: Seq<RegistrySource>,
    query: Option<Seq<char>>,
    page: u32,
    page_size: u32,
    r: SearchStep,
) -> bool {
    r matches SearchStep::Ask(next) && next.later@.len() + 1 == sources.len()
        && crate::registry::sources::types::asks_for(
        next.request,
        sources[0],
        query,
        page,
        page_size,
    ) && (forall|i: int|
        0 <= i < next.later@.len() ==> crate::registry::sources::types::asks_for(
            #[trigger] next.later@[i],
            sources[i + 1],
            query,
            page,
            page_size,
        )) && next.servers@.len() == 0 && next.page
        == crate::registry::sources::types::first_or(page) && next.total_pages == next.page
}

/// What follows from one source's rows: they go behind those that are there,
/// and the page bound is the highest of all.
pub open spec fn after_answer(
    s: Asking,
    reply: Result<(Vec<RegistryServerSummary>, u32), Error>,
    r: SearchStep,
) -> bool {
    match reply {
        Err(e) => r == SearchStep::Done(Err(e)),
        Ok((found, pages)) => if s.later@.len() == 0 {
            r matches SearchStep::Done(Ok(page)) && page.servers@ == s.servers@ + found@
                && page.page == s.page && page.total_pages == larger(s.total_pages, pages)
        } else {
            r matches SearchStep::Ask(next) && next.request == s.later@[0] && next.later@
                == s.later@.drop_first() && next.servers@ == s.servers@ + found@ && next.page
                == s.page && next.total_pages == larger(s.total_pages, pages)
        },
    }
}

/// Begins a search of every catalog taking part, merged.
pub fn begin_search(
    registries: &Registries,
    environment: Option<String>,
    query: Option<&str>,
    page: u32,
    page_size: u32,
) -> (r: SearchStep)
    ensures
        begins(
            crate::registry::sources::types::search_set(registries@, environment),
            match query {
                Some(text) => Some(text@),
                None => None,
            },
            page,
            page_size,
            r,
        ),
{
    let sources = registries.searchable(environment);
    let ghost wanted = match query {
        Some(text) => Some(text@),
        None => None::<Seq<char>>,
    };
    let request = registries.search(sources[0], query, page, page_size);
    let mut later: Vec<SearchRequest> = Vec::new();
    let mut at: usize = 1;
    while at < sources.len()
        invariant
            wanted == (match query {
                Some(text) => Some(text@),
                None => None::<Seq<char>>,
            }),
            1 <= at <= sources@.len(),
            later@.len() == at - 1,
            forall|i: int|
                0 <= i < later@.len() ==> crate::registry::sources::types::asks_for(
                    #[trigger] later@[i],
                    sources@[i + 1],
                    wanted,
                    page,
                    page_size,
                ),
        decreases sources@.len() - at,
    {
        later.push(registries.search(sources[at], query, page, page_size));
        at += 1;
    }
    let first: u32 = request.page;
    SearchStep::Ask(
        Asking { request, later, servers: Vec::new(), page: first, total_pages: first },
    )
}

impl Asking {
    /// Answers with the source's rows and its bound on the number of pages.
    pub fn answered(self, reply: Result<(Vec<RegistryServerSummary>, u32), Error>) -> (r: SearchStep)
        ensures
            after_answer(self, reply, r),
    {
        match reply {
            Err(e) => SearchStep::Done(Err(e)),
            Ok((found, pages)) => {
                let mut servers = self.servers;
                let mut found = found;
                servers.append(&mut found);
                let total_pages: u32 = if self.total_pages < pages {
                    pages
                } else {
                    self.total_pages
                };
                let mut later = self.later;
                if later.len() == 0 {
                    SearchStep::Done(
                        Ok(RegistrySearchPage { servers, page: self.page, total_pages }),
                    )
                } else {
                    let request = later.remove(0);
                    proof {
                        assert(later@ =~= self.later@.drop_first());
                    }
                    SearchStep::Ask(
                        Asking { request, later, servers, page: self.page, total_pages },
                    )
                }
            },
        }
    }
}

/// Whether these replies, in this order, lead from one step to another.
pub open spec fn replies_lead(
    step: SearchStep,
    replies: Seq<(Vec<RegistryServerSummary>, u32)>,
    last: SearchStep,
) -> bool
    decreases replies.len(),
{
    if replies.len() == 0 {
        last == step
    } else {
        step matches SearchStep::Ask(s) && exists|next: SearchStep| #[trigger]
            after_answer(s, Ok(replies[0]), next) && replies_lead(
                next,
                replies.drop_first(),
                last,
            )
    }
}

/// The rows of every reply, in order.
pub open spec fn gathered(replies: Seq<(Vec<RegistryServerSummary>, u32)>) -> Seq<
    RegistryServerSummary,
>
    decreases replies.len(),
{
    if replies.len() == 0 {
        Seq::empty()
    } else {
        replies[0].0@ + gathered(replies.drop_first())
    }
}

/// The highest of a page bound and every reply's.
pub open spec fn highest(bound: u32, replies: Seq<(Vec<RegistryServerSummary>, u32)>) -> u32
    decreases replies.len(),
{
    if replies.len() == 0 {
        bound
    } else {
        highest(larger(bound, replies[0].1), replies.drop_first())
    }
}

/// A search that ends well has asked every source once, in order; its rows are
/// those of all replies, the official catalog's leading, and its page bound is
/// the highest of all and never below the page that was asked for.
pub proof fn a_search_merges_every_source(
    s: Asking,
    replies: Seq<(Vec<RegistryServerSummary>, u32)>,
    page: RegistrySearchPage,
)
    requires
        replies_lead(SearchStep::Ask(s), replies, SearchStep::Done(Ok(page))),
    ensures
        replies.len() == s.later@.len() + 1,
        page.servers@ == s.servers@ + gathered(replies),
        page.page == s.page,
        page.total_pages == highest(s.total_pages, replies),
        page.total_pages >= s.total_pages,
    decreases replies.len(),
{
    assert(replies.len() > 0);
    let next = choose|next: SearchStep| #[trigger]
        after_answer(s, Ok(replies[0]), next) && replies_lead(
            next,
            replies.drop_first(),
            SearchStep::Done(Ok(page)),
        );
    assert(after_answer(s, Ok(replies[0]), next));
    match next {
        SearchStep::Ask(then) => {
            a_search_merges_every_source(then, replies.drop_first(), page);
            assert(s.servers@ + (replies[0].0@ + gathered(replies.drop_first())) =~= (s.servers@
                + replies[0].0@) + gathered(replies.drop_first()));
        },
        SearchStep::Done(_) => {
            assert(replies.drop_first().len() == 0);
            assert(gathered(replies.drop_first()) =~= Seq::empty());
            assert(highest(larger(s.total_pages, replies[0].1), replies.drop_first()) == larger(
                s.total_pages,
                replies[0].1,
            ));
            assert(replies[0].0@ + gathered(replies.drop_first()) =~= replies[0].0@);
        },
    }
}

/// A server's detail, wanted from a catalog.
#[derive(Debug)]
pub struct DetailRequest {
    /// The source to ask.
    pub source: RegistrySource,
    /// The name to ask for.
    pub name: String,
}

/// The request that a name comes to: a blank one is refused, and so is one
/// that is routed to no source here.
pub open spec fn detail_of(
    qualified_name: Seq<char>,
    r: Result<DetailRequest, Error>,
) -> bool {
    if crate::text::blank(qualified_name) {
        r matches Err(e) && super::naming::blank_field(e, "qualified_name"@)
    } else {
        let (source, name) = super::naming::routed(crate::text::trimmed(qualified_name));
        match crate::registry::sources::types::source_named(source) {
            Some(named) => r matches Ok(request) && request.source == named && request.name@
                == name,
            None => r matches Err(e) && crate::registry::sources::types::no_such_source(e, source),
        }
    }
}

/// Begins fetching one server's detail.
pub fn begin_get(registries: &Registries, qualified_name: &str) -> (r: Result<
    DetailRequest,
    Error,
>)
    ensures
        detail_of(qualified_name@, r),
{
    match require_non_empty(qualified_name, "qualified_name") {
        Err(e) => Err(e),
        Ok(trimmed) => {
            let (source, name) = split_routing_name(trimmed);
            match registries.get(source.as_str()) {
                Err(e) => Err(e),
                Ok(source) => Ok(DetailRequest { source, name }),
            }
        },
    }
}

impl DetailRequest {
    /// Answers with the detail; what comes back beside it are the credentials
    /// that installing the server would need.
    pub fn answered(self, reply: Result<RegistryServerDetail, Error>) -> (r: Result<
        (RegistryServerDetail, Vec<String>),
        Error,
    >)
        ensures
            match reply {
                Err(e) => r == Err::<(RegistryServerDetail, Vec<String>), Error>(e),
                Ok(detail) => r matches Ok(got) && got.0 == detail && crate::text::texts(got.1@)
                    == super::install::required_env_keys(detail),
            },
    {
        match reply {
            Err(e) => Err(e),
            Ok(detail) => {
                let required = collect_required_env_keys(&detail);
                Ok((detail, required))
            },
        }
    }
}

/// The rows of each reply stand in the result in one piece and in their order,
/// those of an earlier reply ahead of those of a later one.
pub proof fn the_rows_of_each_source_are_kept(
    s: Asking,
    replies: Seq<(Vec<RegistryServerSummary>, u32)>,
    page: RegistrySearchPage,
    which: int,
) -> (from: int)
    requires
        replies_lead(SearchStep::Ask(s), replies, SearchStep::Done(Ok(page))),
        0 <= which < replies.len(),
    ensures
        0 <= from,
        from + replies[which].0@.len() <= page.servers@.len(),
        page.servers@.subrange(from, from + replies[which].0@.len()) == replies[which].0@,
        from == s.servers@.len() + gathered(replies.take(which)).len(),
        which == 0 ==> from == s.servers@.len(),
        which == replies.len() - 1 ==> from + replies[which].0@.len() == page.servers@.len(),
{
    a_search_merges_every_source(s, replies, page);
    lemma_gathered(replies, which);
    let before = gathered(replies.take(which));
    let own = replies[which].0@;
    let after = gathered(replies.skip(which + 1));
    let from = (s.servers@.len() + before.len()) as int;
    assert(page.servers@ =~= s.servers@ + before + own + after);
    assert(page.servers@.subrange(from, from + own.len()) =~= own);
    if which == 0 {
        assert(replies.take(0).len() == 0);
        assert(before.len() == 0);
    }
    if which == replies.len() - 1 {
        assert(replies.skip(which + 1).len() == 0);
        assert(after.len() == 0);
    }
    from
}

proof fn lemma_gathered(replies: Seq<(Vec<RegistryServerSummary>, u32)>, which: int)
    requires
        0 <= which < replies.len(),
    ensures
        gathered(replies) == gathered(replies.take(which)) + replies[which].0@ + gathered(
            replies.skip(which + 1),
        ),
    decreases replies.len(),
{
    let rest = replies.drop_first();
    if which == 0 {
        assert(replies.take(0).len() == 0);
        assert(gathered(replies.take(0)) =~= Seq::empty());
        assert(replies.skip(1) =~= rest);
        assert(gathered(replies) =~= gathered(replies.take(0)) + replies[0].0@ + gathered(
            replies.skip(1),
        ));
    } else {
        lemma_gathered(rest, which - 1);
        assert(replies.take(which).drop_first() =~= rest.take(which - 1));
        assert(replies.skip(which + 1) =~= rest.skip(which));
        assert(replies.take(which)[0] == replies[0]);
        assert(gathered(replies) =~= gathered(replies.take(which)) + replies[which].0@ + gathered(
            replies.skip(which + 1),
        ));
    }
}

/// The page bound of a search is never below the page that was asked for nor
/// below what any source says, and is one of them.
pub proof fn the_page_bound_is_the_highest(
    s: Asking,
    replies: Seq<(Vec<RegistryServerSummary>, u32)>,
    page: RegistrySearchPage,
)
    requires
        replies_lead(SearchStep::Ask(s), replies, SearchStep::Done(Ok(page))),
    ensures
        page.page == s.page,
        page.total_pages >= s.total_pages,
        forall|i: int| 0 <= i < replies.len() ==> page.total_pages >= (#[trigger] replies[i]).1,
        page.total_pages == s.total_pages || exists|i: int|
            0 <= i < replies.len() && page.total_pages == (#[trigger] replies[i]).1,
{
    a_search_merges_every_source(s, replies, page);
    lemma_highest(s.total_pages, replies);
}

proof fn lemma_highest(bound: u32, replies: Seq<(Vec<RegistryServerSummary>, u32)>)
    ensures
        highest(bound, replies) >= bound,
        forall|i: int| 0 <= i < replies.len() ==> highest(bound, replies) >= (
        #[trigger] replies[i]).1,
        highest(bound, replies) == bound || exists|i: int|
            0 <= i < replies.len() && highest(bound, replies) == (#[trigger] replies[i]).1,
    decreases replies.len(),
{
    if replies.len() > 0 {
        let next = larger(bound, replies[0].1);
        let rest = replies.drop_first();
        lemma_highest(next, rest);
        assert forall|i: int| 0 <= i < replies.len() implies highest(bound, replies) >= (
        #[trigger] replies[i]).1 by {
            if i > 0 {
                assert(rest[i - 1] == replies[i]);
            }
        }
        if highest(next, rest) != next {
            let i = choose|i: int|
                0 <= i < rest.len() && highest(next, rest) == (#[trigger] rest[i]).1;
            assert(replies[i + 1] == rest[i]);
        } else if next != bound {
            assert(highest(bound, replies) == replies[0].1);
        }
    }
}

/// A search asks the official catalog first, and Smithery after it exactly where
/// a key is set, in the configuration or in the environment. Each is asked for
/// the query without the white space around it, for the page that was given or
/// the first, and for the page size that was given or twenty.
pub proof fn what_a_search_asks(
    auth: crate::bus::McpRegistryAuthConfig,
    environment: Option<String>,
    query: Option<Seq<char>>,
    page: u32,
    page_size: u32,
    s: Asking,
)
    requires
        begins(
            crate::registry::sources::types::search_set(auth, environment),
            query,
            page,
            page_size,
            SearchStep::Ask(s),
        ),
    ensures
        ({
            let key_set = (auth.smithery_api_key is Some && !crate::text::blank(
                auth.smithery_api_key->Some_0@,
            )) || (environment is Some && !crate::text::blank(environment->Some_0@));
            &&& s.request.source == RegistrySource::McpOfficial
            &&& s.later@.len() == if key_set {
                1nat
            } else {
                0
            }
            &&& key_set ==> s.later@[0].source == RegistrySource::Smithery && s.later@[0].query@
                == s.request.query@ && s.later@[0].page == s.request.page
                && s.later@[0].page_size == s.request.page_size
            &&& query matches Some(text) ==> s.request.query@ == crate::text::trimmed(text)
            &&& query is None ==> s.request.query@.len() == 0
            &&& s.request.page == if page == 0 {
                1
            } else {
                page
            }
            &&& s.request.page_size == if page_size == 0 {
                20
            } else {
                page_size
            }
            &&& s.page == s.request.page
            &&& s.total_pages == s.page
            &&& s.servers@.len() == 0
        }),
{
    reveal_strlit("");
    let sources = crate::registry::sources::types::search_set(auth, environment);
    if s.later@.len() > 0 {
        assert(crate::registry::sources::types::asks_for(
            s.later@[0],
            sources[1],
            query,
            page,
            page_size,
        ));
    }
}

} // verus!
