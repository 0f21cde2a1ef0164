//! The registry facade.
use vstd::prelude::*;

use super::browsing::{begin_get, begin_search, DetailRequest, SearchStep};
use super::connecting::{begin_connect, begin_oauth_complete, ConnectStep, SignInStep};
use super::credentials::{begin_update_env, UpdateEnvStep};
use super::enabling::{begin_set_enabled, begin_uninstall, EnableStep, UninstallStep};
use super::installing::{begin_install, InstallStep};
use super::naming::named_install;
use super::tools::{
    begin_list_tools, begin_oauth, begin_tool_call, SignInRequest, ToolCallRequest, ToolsRequest,
};
use crate::bus::{
    McpClientIdentityConfig, McpProxyConfig, McpRegistryAuthConfig, RegistrySettings,
};
use crate::env::EnvMap;
use crate::error::Error;
use crate::registry::oauth::detect::{begin_detect, DetectStep};
use crate::registry::oauth::flow::OAuthFlow;
use crate::registry::sources::types::Registries;

verus! {

/// Everything a host can ask the dynamic registry to do.
#[derive(Debug)]
pub struct McpRegistry {
    registries: Registries,
    identity: McpClientIdentityConfig,
    proxy: Option<McpProxyConfig>,
}

impl View for McpRegistry {
    type V = (McpRegistryAuthConfig, McpClientIdentityConfig, Option<McpProxyConfig>);

    closed spec fn view(&self) -> (
        McpRegistryAuthConfig,
        McpClientIdentityConfig,
        Option<McpProxyConfig>,
    ) {
        (self.registries@, self.identity, self.proxy)
    }
}

impl McpRegistry {
    /// Builds the registry.
    #[must_use]
    pub fn new(
        registry_auth: McpRegistryAuthConfig,
        identity: McpClientIdentityConfig,
        proxy: Option<McpProxyConfig>,
    ) -> (r: McpRegistry)
        ensures
            r@ == (registry_auth, identity, proxy),
    {
        McpRegistry { registries: Registries::new(registry_auth), identity, proxy }
    }

    /// The catalogs.
    #[must_use]
    pub fn registries(&self) -> (r: &Registries)
        ensures
            r@ == self@.0,
    {
        &self.registries
    }

    /// What clients say of themselves.
    #[must_use]
    pub fn identity(&self) -> (r: &McpClientIdentityConfig)
        ensures
            *r == self@.1,
    {
        &self.identity
    }

    /// The proxies clients go through.
    #[must_use]
    pub fn proxy(&self) -> (r: &Option<McpProxyConfig>)
        ensures
            *r == self@.2,
    {
        &self.proxy
    }

    /// Searches every catalog taking part in search, merged.
    ///
    /// The official catalog leads. `environment` is what `SMITHERY_API_KEY`
    /// holds, where it is set.
    #[must_use]
    pub fn registry_search(
        &self,
        environment: Option<String>,
        query: Option<&str>,
        page: u32,
        page_size: u32,
    ) -> (r: SearchStep)
        ensures
            super::browsing::begins(
                crate::registry::sources::types::search_set(self@.0, environment),
                match query {
                    Some(text) => Some(text@),
                    None => None,
                },
                page,
                page_size,
                r,
            ),
    {
        begin_search(&self.registries, environment, query, page, page_size)
    }

    /// Fetches one server's detail, and the credential names installing it
    /// would need.
    pub fn registry_get(&self, qualified_name: &str) -> (r: Result<DetailRequest, Error>)
        ensures
            super::browsing::detail_of(qualified_name@, r),
    {
        begin_get(&self.registries, qualified_name)
    }

    /// Gathers what a model would need to help a user configure a server: the
    /// catalog detail and the credential names an install needs. Running a
    /// model over it is the host's.
    pub fn config_assist(&self, qualified_name: &str) -> (r: Result<DetailRequest, Error>)
        ensures
            super::browsing::detail_of(qualified_name@, r),
    {
        self.registry_get(qualified_name)
    }

    /// Reports which registry credentials are configured, with no values.
    #[must_use]
    pub fn registry_settings(&self, environment: Option<String>) -> (r: RegistrySettings)
        ensures
            r == crate::registry::sources::types::settings_of(self@.0, environment),
    {
        self.registries.settings(environment)
    }

    /// Installs a server from a catalog.
    #[must_use]
    pub fn install(
        &self,
        qualified_name: &str,
        env: EnvMap,
        config: Option<serde_json::Value>,
    ) -> (r: InstallStep)
        ensures
            super::installing::begins(qualified_name@, env, config, r),
    {
        begin_install(qualified_name, env, config)
    }

    /// Removes an install, disconnecting it first.
    #[must_use]
    pub fn uninstall(&self, server_id: &str) -> (r: UninstallStep)
        ensures
            if crate::text::blank(server_id@) {
                r matches UninstallStep::Done(Err(e)) && super::naming::blank_field(
                    e,
                    "server_id"@,
                )
            } else {
                r matches UninstallStep::EndSession(next) && next.server_id@
                    == crate::text::trimmed(server_id@)
            },
    {
        begin_uninstall(server_id)
    }

    /// Turns an install on or off.
    #[must_use]
    pub fn set_enabled(&self, server_id: &str, enabled: bool) -> (r: EnableStep)
        ensures
            super::enabling::begins(server_id@, enabled, r),
    {
        begin_set_enabled(server_id, enabled)
    }

    /// Replaces an install's credentials and reconnects it.
    #[must_use]
    pub fn update_env(&self, server_id: &str, env: EnvMap) -> (r: UpdateEnvStep)
        ensures
            super::credentials::begins(server_id@, env, r),
    {
        begin_update_env(server_id, env)
    }

    /// Connects an install.
    #[must_use]
    pub fn connect(&self, server_id: &str) -> (r: ConnectStep)
        ensures
            super::connecting::begins(server_id@, r),
    {
        begin_connect(server_id)
    }

    /// Disconnects an install: the one whose session is to be ended.
    pub fn disconnect(&self, server_id: &str) -> (r: Result<String, Error>)
        ensures
            if crate::text::blank(server_id@) {
                r matches Err(e) && super::naming::blank_field(e, "server_id"@)
            } else {
                r matches Ok(id) && id@ == crate::text::trimmed(server_id@)
            },
    {
        named_install(server_id)
    }

    /// Classifies what a server wants before it will talk.
    #[must_use]
    pub fn detect_auth(&self, server_id: &str) -> (r: DetectStep)
        ensures
            crate::registry::oauth::detect::begins(server_id@, r),
    {
        begin_detect(server_id)
    }

    /// Starts a browser sign-in.
    ///
    /// `redirect_uri` is the loopback address the host is listening on.
    pub fn oauth_begin(&self, server_id: &str, redirect_uri: &str) -> (r: Result<
        SignInRequest,
        Error,
    >)
        ensures
            if crate::text::blank(server_id@) {
                r matches Err(e) && super::naming::blank_field(e, "server_id"@)
            } else {
                r matches Ok(request) && request.server_id@ == crate::text::trimmed(server_id@)
                    && request.redirect_uri@ == redirect_uri@
            },
    {
        begin_oauth(server_id, redirect_uri)
    }

    /// Finishes a browser sign-in and connects the server. `flow` holds the
    /// sign-ins that have begun.
    #[must_use]
    pub fn oauth_complete(&self, flow: &mut OAuthFlow, state: &str, code: &str) -> (r: SignInStep)
        ensures
            final(flow)@ == old(flow)@.remove(state@),
            super::connecting::completes(old(flow)@, state@, code@, r),
    {
        begin_oauth_complete(flow, state, code)
    }

    /// Lists the tools a connected server advertises.
    pub fn list_tools(&self, server_id: &str) -> (r: Result<ToolsRequest, Error>)
        ensures
            if crate::text::blank(server_id@) {
                r matches Err(e) && super::naming::blank_field(e, "server_id"@)
            } else {
                r matches Ok(request) && request.server_id@ == crate::text::trimmed(server_id@)
            },
    {
        begin_list_tools(server_id)
    }

    /// Calls a tool on a connected server.
    pub fn tool_call(
        &self,
        server_id: &str,
        tool_name: &str,
        arguments: serde_json::Value,
    ) -> (r: Result<ToolCallRequest, Error>)
        ensures
            if crate::text::blank(server_id@) {
                r matches Err(e) && super::naming::blank_field(e, "server_id"@)
            } else if crate::text::blank(tool_name@) {
                r matches Err(e) && super::naming::blank_field(e, "tool_name"@)
            } else {
                r matches Ok(request) && request.server_id@ == crate::text::trimmed(server_id@)
                    && request.tool_name@ == crate::text::trimmed(tool_name@)
                    && request.arguments == arguments
            },
    {
        begin_tool_call(server_id, tool_name, arguments)
    }
}

} // verus!
