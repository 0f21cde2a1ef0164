//! The dispatcher over the upstream catalogs.
use vstd::prelude::*;

use crate::bus::{McpRegistryAuthConfig, RegistrySettings};
use crate::error::Error;
use crate::text::{same_text, text3};

verus! {

/// The identifier Smithery stamps on its rows.
pub const SOURCE_SMITHERY: &'static str = "smithery";

/// The identifier the official registry stamps on its rows.
pub const SOURCE_MCP_OFFICIAL: &'static str = "mcp_official";

/// The default page size when a caller does not ask for one.
pub const DEFAULT_PAGE_SIZE: u32 = 20;

/// One upstream catalog.
#[derive(Debug, Clone, Copy, PartialEq, Eq, Structural)]
#[non_exhaustive]
pub enum RegistrySource {
    /// The official `modelcontextprotocol/registry`.
    McpOfficial,
    /// Smithery.
    Smithery,
}

/// The stable identifier stamped on a source's rows.
pub open spec fn identifier(source: RegistrySource) -> Seq<char> {
    match source {
        RegistrySource::McpOfficial => SOURCE_MCP_OFFICIAL@,
        RegistrySource::Smithery => SOURCE_SMITHERY@,
    }
}

/// The source an identifier names.
pub open spec fn source_named(text: Seq<char>) -> Option<RegistrySource> {
    if text == SOURCE_MCP_OFFICIAL@ {
        Some(RegistrySource::McpOfficial)
    } else if text == SOURCE_SMITHERY@ {
        Some(RegistrySource::Smithery)
    } else {
        None
    }
}

/// The two identifiers differ.
proof fn lemma_identifiers_differ()
    ensures
        SOURCE_MCP_OFFICIAL@ != SOURCE_SMITHERY@,
{
    reveal_strlit("mcp_official");
    reveal_strlit("smithery");
    assert(SOURCE_MCP_OFFICIAL@.len() == 12);
    assert(SOURCE_SMITHERY@.len() == 8);
}

/// A source is read back from its identifier.
pub proof fn an_identifier_names_its_source(source: RegistrySource)
    ensures
        source_named(identifier(source)) == Some(source),
{
    lemma_identifiers_differ();
}

/// Whatever is read as a source is that source's identifier.
pub proof fn only_an_identifier_names_a_source(text: Seq<char>)
    ensures
        source_named(text) matches Some(source) ==> identifier(source) == text,
{
}

impl RegistrySource {
    /// The stable identifier stamped on this source's rows.
    #[must_use]
    pub fn as_str(self) -> (r: &'static str)
        ensures
            r@ == identifier(self),
    {
        match self {
            RegistrySource::McpOfficial => SOURCE_MCP_OFFICIAL,
            RegistrySource::Smithery => SOURCE_SMITHERY,
        }
    }

    /// Reads an identifier back, or `None` when it names no source here.
    #[must_use]
    pub fn parse(source: &str) -> (r: Option<RegistrySource>)
        ensures
            r == source_named(source@),
    {
        if same_text(source, SOURCE_MCP_OFFICIAL) {
            Some(RegistrySource::McpOfficial)
        } else if same_text(source, SOURCE_SMITHERY) {
            Some(RegistrySource::Smithery)
        } else {
            None
        }
    }
}

/// A setting's value, where it is set and not blank.
pub open spec fn set_value(value: Option<String>) -> Option<Seq<char>> {
    match value {
        Some(text) => if crate::text::blank(text@) {
            None
        } else {
            Some(text@)
        },
        None => None,
    }
}

/// A setting's value, where it is set and not blank.
///
/// An environment variable read by a host goes through here too, so that one
/// set to nothing counts as unset.
#[must_use]
pub fn non_blank(value: Option<String>) -> (r: Option<String>)
    ensures
        crate::text::opt_text(r) == set_value(value),
{
    match value {
        Some(text) => if text.as_str().trim().unicode_len() == 0 {
            None
        } else {
            Some(text)
        },
        None => None,
    }
}

/// A search of one source, as it is sent: the query trimmed, the page counted
/// from one, the page size never zero.
#[derive(Debug, Clone, PartialEq, Eq)]
pub struct SearchRequest {
    /// The source to ask.
    pub source: RegistrySource,
    /// What to look for; empty means everything.
    pub query: String,
    /// Which page, counted from one.
    pub page: u32,
    /// How many rows a page has.
    pub page_size: u32,
}

/// Whether a request is the one that a search for these means.
pub open spec fn asks_for(
    request: SearchRequest,
    source: RegistrySource,
    query: Option<Seq<char>>,
    page: u32,
    page_size: u32,
) -> bool {
    &&& request.source == source
    &&& request.query@ == match query {
        Some(text) => crate::text::trimmed(text),
        None => ""@,
    }
    &&& request.page == first_or(page)
    &&& request.page_size == if page_size == 0 {
        DEFAULT_PAGE_SIZE
    } else {
        page_size
    }
}

/// A page number, counted from one.
pub open spec fn first_or(page: u32) -> u32 {
    if page == 0 {
        1
    } else {
        page
    }
}

/// The upstream catalogs, and the credentials they take.
#[derive(Debug)]
pub struct Registries {
    auth: McpRegistryAuthConfig,
}

impl View for Registries {
    type V = McpRegistryAuthConfig;

    closed spec fn view(&self) -> McpRegistryAuthConfig {
        self.auth
    }
}

/// The Smithery key in effect: configuration first, then the environment. A
/// blank value counts as unset, so an empty setting does not produce a bare
/// `Bearer ` header that every request then fails on.
pub open spec fn effective_key(auth: McpRegistryAuthConfig, environment: Option<String>) -> Option<
    Seq<char>,
> {
    match set_value(auth.smithery_api_key) {
        Some(key) => Some(key),
        None => set_value(environment),
    }
}

/// The sources that take part in a search: the official registry, always and
/// first, and Smithery once a key is configured.
pub open spec fn search_set(auth: McpRegistryAuthConfig, environment: Option<String>) -> Seq<
    RegistrySource,
> {
    if effective_key(auth, environment) is Some {
        seq![RegistrySource::McpOfficial, RegistrySource::Smithery]
    } else {
        seq![RegistrySource::McpOfficial]
    }
}

/// Which credentials are configured, with no values.
pub open spec fn settings_of(
    auth: McpRegistryAuthConfig,
    environment: Option<String>,
) -> RegistrySettings {
    RegistrySettings {
        smithery_api_key_set: effective_key(auth, environment).is_some(),
        mcp_official_token_set: set_value(auth.mcp_official_token).is_some(),
        mcp_official_base: auth.mcp_official_base,
    }
}

impl Registries {
    /// Builds the dispatcher.
    #[must_use]
    pub fn new(auth: McpRegistryAuthConfig) -> (r: Registries)
        ensures
            r@ == auth,
    {
        Registries { auth }
    }

    /// The credentials the catalogs take.
    #[must_use]
    pub fn auth(&self) -> (r: &McpRegistryAuthConfig)
        ensures
            *r == self@,
    {
        &self.auth
    }

    /// The sources that take part in a search.
    ///
    /// `environment` is what `SMITHERY_API_KEY` holds, where it is set.
    #[must_use]
    pub fn searchable(&self, environment: Option<String>) -> (r: Vec<RegistrySource>)
        ensures
            r@ == search_set(self@, environment),
    {
        let mut sources = vec![RegistrySource::McpOfficial];
        if self.smithery_key(environment).is_some() {
            sources.push(RegistrySource::Smithery);
        }
        proof {
            assert(sources@ =~= search_set(self@, environment));
        }
        sources
    }

    /// The request that a search of one source comes to.
    #[must_use]
    pub fn search(
        &self,
        source: RegistrySource,
        query: Option<&str>,
        page: u32,
        page_size: u32,
    ) -> (r: SearchRequest)
        ensures
            asks_for(
                r,
                source,
                match query {
                    Some(text) => Some(text@),
                    None => None,
                },
                page,
                page_size,
            ),
    {
        let query = match query {
            Some(text) => text.trim().to_owned(),
            None => "".to_owned(),
        };
        let page: u32 = if page == 0 {
            1
        } else {
            page
        };
        let page_size: u32 = if page_size == 0 {
            DEFAULT_PAGE_SIZE
        } else {
            page_size
        };
        SearchRequest { source, query, page, page_size }
    }

    /// The source to fetch one server's detail from.
    ///
    /// Deliberately not gated on a key: an already-installed Smithery server
    /// must stay inspectable after the key is removed.
    pub fn get(&self, source: &str) -> (r: Result<RegistrySource, Error>)
        ensures
            match source_named(source@) {
                Some(named) => r == Ok::<RegistrySource, Error>(named),
                None => r matches Err(e) && no_such_source(e, source@),
            },
    {
        match RegistrySource::parse(source) {
            Some(named) => Ok(named),
            None => Err(Error::UnknownServer { server: text3("registry source `", source, "`") }),
        }
    }

    /// The Smithery key in effect.
    ///
    /// `environment` is what `SMITHERY_API_KEY` holds, where it is set: a
    /// container deployment that sets only variables keeps working.
    #[must_use]
    pub fn smithery_key(&self, environment: Option<String>) -> (r: Option<String>)
        ensures
            crate::text::opt_text(r) == effective_key(self@, environment),
    {
        if let Some(key) = &self.auth.smithery_api_key {
            if key.as_str().trim().unicode_len() > 0 {
                return Some(key.clone());
            }
        }
        non_blank(environment)
    }

    /// Which credentials are configured, with no values.
    #[must_use]
    pub fn settings(&self, environment: Option<String>) -> (r: RegistrySettings)
        ensures
            r == settings_of(self@, environment),
    {
        let smithery_api_key_set = self.smithery_key(environment).is_some();
        let mcp_official_token_set = match &self.auth.mcp_official_token {
            Some(token) => token.as_str().trim().unicode_len() > 0,
            None => false,
        };
        let mcp_official_base = match &self.auth.mcp_official_base {
            Some(base) => Some(base.clone()),
            None => None,
        };
        RegistrySettings { smithery_api_key_set, mcp_official_token_set, mcp_official_base }
    }
}

/// Whether an error says that no source has this identifier.
pub open spec fn no_such_source(error: Error, source: Seq<char>) -> bool {
    error matches Error::UnknownServer { server } && server@ == "registry source `"@ + source
        + "`"@
}

/// What is reported of the credentials is the same for every value they could
/// have: settings tell whether a credential is set, and nothing of what it is.
pub proof fn settings_never_tell_a_credential(
    one: McpRegistryAuthConfig,
    other: McpRegistryAuthConfig,
    environment: Option<String>,
)
    requires
        set_value(one.smithery_api_key) is Some <==> set_value(other.smithery_api_key) is Some,
        set_value(one.mcp_official_token) is Some <==> set_value(other.mcp_official_token) is Some,
        one.mcp_official_base == other.mcp_official_base,
    ensures
        settings_of(one, environment) == settings_of(other, environment),
{
}

/// Asking twice is asking once: the request of a search for what a request
/// already says is that request.
pub proof fn a_request_is_its_own_request(
    request: SearchRequest,
    again: SearchRequest,
    source: RegistrySource,
    query: Option<Seq<char>>,
    page: u32,
    page_size: u32,
)
    requires
        asks_for(request, source, query, page, page_size),
        asks_for(again, request.source, Some(request.query@), request.page, request.page_size),
    ensures
        again.source == request.source,
        again.query@ == request.query@,
        again.page == request.page,
        again.page_size == request.page_size,
{
    match query {
        Some(text) => {
            crate::text::trimming_is_idempotent(text);
        },
        None => {
            reveal_strlit("");
            assert(crate::text::trimmed(""@) == ""@);
        },
    }
}

/// The key in effect is the configured one, as it stands, where it is not blank;
/// else the environment's, as it stands, where that is not blank; else none.
pub proof fn which_key_is_in_effect(auth: McpRegistryAuthConfig, environment: Option<String>)
    ensures
        ({
            let key = effective_key(auth, environment);
            let configured = auth.smithery_api_key is Some && !crate::text::blank(
                auth.smithery_api_key->Some_0@,
            );
            let inherited = environment is Some && !crate::text::blank(environment->Some_0@);
            &&& configured ==> key == Some(auth.smithery_api_key->Some_0@)
            &&& !configured && inherited ==> key == Some(environment->Some_0@)
            &&& !configured && !inherited ==> key is None
        }),
{
}

/// Settings say that a credential is set exactly where it is given and not
/// blank, and repeat the address as it was configured.
pub proof fn what_settings_say(auth: McpRegistryAuthConfig, environment: Option<String>)
    ensures
        ({
            let said = settings_of(auth, environment);
            &&& said.smithery_api_key_set <==> ((auth.smithery_api_key is Some
                && !crate::text::blank(auth.smithery_api_key->Some_0@)) || (environment is Some
                && !crate::text::blank(environment->Some_0@)))
            &&& said.mcp_official_token_set <==> (auth.mcp_official_token is Some
                && !crate::text::blank(auth.mcp_official_token->Some_0@))
            &&& said.mcp_official_base == auth.mcp_official_base
        }),
{
}

/// The identifiers that rows are stamped with.
pub proof fn what_sources_are_called()
    ensures
        identifier(RegistrySource::McpOfficial) == "mcp_official"@,
        identifier(RegistrySource::Smithery) == "smithery"@,
{
}

} // verus!
