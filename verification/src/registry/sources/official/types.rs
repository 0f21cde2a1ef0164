//! The shapes that the official registry sends.
use vstd::prelude::*;

use crate::error::Error;
use crate::json::{Json, JsonView};

verus! {

/// Where a row's own metadata stands.
pub const OFFICIAL_META: &'static str = "io.modelcontextprotocol.registry/official";

/// One header or environment variable that a server takes.
#[derive(Debug)]
pub struct OfficialInput {
    /// Its name.
    pub name: String,
    /// What it is for.
    pub description: Option<String>,
    /// Whether it is a secret.
    pub is_secret: bool,
    /// Whether the server does not work without it.
    pub is_required: bool,
}

/// A hosted endpoint of a server.
#[derive(Debug)]
pub struct OfficialRemote {
    /// Where it is.
    pub url: Option<String>,
    /// The headers it takes.
    pub headers: Vec<OfficialInput>,
}

/// A package of a server.
#[derive(Debug)]
pub struct OfficialPackage {
    /// The package registry it is published in, such as `npm`.
    pub registry_type: String,
    /// Its name there.
    pub identifier: String,
    /// The launcher it asks for.
    pub runtime_hint: Option<String>,
    /// The arguments it is launched with.
    pub runtime_arguments: Vec<String>,
    /// The environment variables it takes.
    pub environment_variables: Vec<OfficialInput>,
    /// The inputs it takes, as the registry states them.
    pub config_schema: Option<Json>,
}

/// One server of the official registry.
#[derive(Debug)]
pub struct OfficialServer {
    /// Its qualified name.
    pub name: String,
    /// The name its vendor gives it.
    pub title: Option<String>,
    /// What it does.
    pub description: Option<String>,
    /// Its vendor's site.
    pub website_url: Option<String>,
    /// Its hosted endpoints.
    pub remotes: Vec<OfficialRemote>,
    /// Its packages.
    pub packages: Vec<OfficialPackage>,
}

/// One row of a listing.
#[derive(Debug)]
pub struct OfficialRow {
    /// The server.
    pub server: OfficialServer,
    /// Whether the registry has it active or deprecated, in its own words.
    pub status: Option<String>,
}

/// One page of a listing.
#[derive(Debug)]
pub struct OfficialListResponse {
    /// The rows.
    pub servers: Vec<OfficialRow>,
    /// Where the next page begins, as it was sent.
    pub cursor: Option<String>,
}

/// What an input says.
pub struct InputView {
    /// Its name.
    pub name: Seq<char>,
    /// What it is for.
    pub description: Option<Seq<char>>,
    /// Whether it is a secret.
    pub is_secret: bool,
    /// Whether the server does not work without it.
    pub is_required: bool,
}

/// What a hosted endpoint says.
pub struct RemoteView {
    /// Where it is.
    pub url: Option<Seq<char>>,
    /// The headers it takes.
    pub headers: Seq<InputView>,
}

/// What a package says.
pub struct PackageView {
    /// The package registry it is published in.
    pub registry_type: Seq<char>,
    /// Its name there.
    pub identifier: Seq<char>,
    /// The launcher it asks for.
    pub runtime_hint: Option<Seq<char>>,
    /// The arguments it is launched with.
    pub runtime_arguments: Seq<Seq<char>>,
    /// The environment variables it takes.
    pub environment_variables: Seq<InputView>,
    /// The inputs it takes, as the registry states them.
    pub config_schema: Option<JsonView>,
}

/// What a server says.
pub struct ServerView {
    /// Its qualified name.
    pub name: Seq<char>,
    /// The name its vendor gives it.
    pub title: Option<Seq<char>>,
    /// What it does.
    pub description: Option<Seq<char>>,
    /// Its vendor's site.
    pub website_url: Option<Seq<char>>,
    /// Its hosted endpoints.
    pub remotes: Seq<RemoteView>,
    /// Its packages.
    pub packages: Seq<PackageView>,
}

/// What a row says.
pub struct RowView {
    /// The server.
    pub server: ServerView,
    /// Its status.
    pub status: Option<Seq<char>>,
}

impl View for OfficialInput {
    type V = InputView;

    open spec fn view(&self) -> InputView {
        InputView {
            name: self.name@,
            description: crate::text::opt_text(self.description),
            is_secret: self.is_secret,
            is_required: self.is_required,
        }
    }
}

/// What a list of inputs says.
pub open spec fn inputs_said(inputs: Seq<OfficialInput>) -> Seq<InputView> {
    inputs.map_values(|input: OfficialInput| input@)
}

impl View for OfficialRemote {
    type V = RemoteView;

    open spec fn view(&self) -> RemoteView {
        RemoteView {
            url: crate::text::opt_text(self.url),
            headers: inputs_said(self.headers@),
        }
    }
}

/// What a schema says, where there is one.
pub open spec fn opt_json(schema: Option<Json>) -> Option<JsonView> {
    match schema {
        Some(json) => Some(json@),
        None => None,
    }
}

impl View for OfficialPackage {
    type V = PackageView;

    open spec fn view(&self) -> PackageView {
        PackageView {
            registry_type: self.registry_type@,
            identifier: self.identifier@,
            runtime_hint: crate::text::opt_text(self.runtime_hint),
            runtime_arguments: crate::text::texts(self.runtime_arguments@),
            environment_variables: inputs_said(self.environment_variables@),
            config_schema: opt_json(self.config_schema),
        }
    }
}

/// What a list of hosted endpoints says.
pub open spec fn remotes_said(remotes: Seq<OfficialRemote>) -> Seq<RemoteView> {
    remotes.map_values(|remote: OfficialRemote| remote@)
}

/// What a list of packages says.
pub open spec fn packages_said(packages: Seq<OfficialPackage>) -> Seq<PackageView> {
    packages.map_values(|package: OfficialPackage| package@)
}

impl View for OfficialServer {
    type V = ServerView;

    open spec fn view(&self) -> ServerView {
        ServerView {
            name: self.name@,
            title: crate::text::opt_text(self.title),
            description: crate::text::opt_text(self.description),
            website_url: crate::text::opt_text(self.website_url),
            remotes: remotes_said(self.remotes@),
            packages: packages_said(self.packages@),
        }
    }
}

impl View for OfficialRow {
    type V = RowView;

    open spec fn view(&self) -> RowView {
        RowView { server: self.server@, status: crate::text::opt_text(self.status) }
    }
}

/// What a list of rows says.
pub open spec fn rows_said(rows: Seq<OfficialRow>) -> Seq<RowView> {
    rows.map_values(|row: OfficialRow| row@)
}

/// A text that counts as empty where it is not given.
pub open spec fn text_or_empty(text: Option<Seq<char>>) -> Seq<char> {
    match text {
        Some(given) => given,
        None => Seq::empty(),
    }
}

/// How an input is read.
pub open spec fn input_read(document: JsonView) -> InputView {
    InputView {
        name: text_or_empty(crate::json::text_member(document, "name"@)),
        description: crate::json::text_member(document, "description"@),
        is_secret: crate::json::flag_member(document, "isSecret"@),
        is_required: crate::json::flag_member(document, "isRequired"@),
    }
}

/// How a list of inputs is read.
pub open spec fn inputs_read(items: Seq<JsonView>) -> Seq<InputView> {
    items.map_values(|item: JsonView| input_read(item))
}

/// How a hosted endpoint is read.
pub open spec fn remote_read(document: JsonView) -> RemoteView {
    RemoteView {
        url: crate::json::text_member(document, "url"@),
        headers: inputs_read(crate::json::list_member(document, "headers"@)),
    }
}

/// How launch arguments are read: the values they carry, in order. One without
/// a value is passed over.
pub open spec fn arguments_read(items: Seq<JsonView>) -> Seq<Seq<char>>
    decreases items.len(),
{
    if items.len() == 0 {
        Seq::empty()
    } else {
        match crate::json::text_member(items.last(), "value"@) {
            Some(value) => arguments_read(items.drop_last()).push(value),
            None => arguments_read(items.drop_last()),
        }
    }
}

/// How a package is read.
pub open spec fn package_read(document: JsonView) -> PackageView {
    PackageView {
        registry_type: text_or_empty(crate::json::text_member(document, "registryType"@)),
        identifier: text_or_empty(crate::json::text_member(document, "identifier"@)),
        runtime_hint: crate::json::text_member(document, "runtimeHint"@),
        runtime_arguments: arguments_read(
            crate::json::list_member(document, "runtimeArguments"@),
        ),
        environment_variables: inputs_read(
            crate::json::list_member(document, "environmentVariables"@),
        ),
        config_schema: crate::json::member(document, "configSchema"@),
    }
}

/// How a server is read.
pub open spec fn server_read(document: JsonView) -> ServerView {
    ServerView {
        name: text_or_empty(crate::json::text_member(document, "name"@)),
        title: crate::json::text_member(document, "title"@),
        description: crate::json::text_member(document, "description"@),
        website_url: crate::json::text_member(document, "websiteUrl"@),
        remotes: crate::json::list_member(document, "remotes"@).map_values(
            |item: JsonView| remote_read(item),
        ),
        packages: crate::json::list_member(document, "packages"@).map_values(
            |item: JsonView| package_read(item),
        ),
    }
}

/// A row's status: what its metadata says under the registry's own name.
pub open spec fn status_read(document: JsonView) -> Option<Seq<char>> {
    match crate::json::member(document, "_meta"@) {
        Some(meta) => match crate::json::member(meta, OFFICIAL_META@) {
            Some(official) => crate::json::text_member(official, "status"@),
            None => None,
        },
        None => None,
    }
}

/// Whether a row has its envelope: an object under `server`.
pub open spec fn has_envelope(document: JsonView) -> bool {
    crate::json::member(document, "server"@) matches Some(JsonView::Object(_))
}

/// How a row is read.
pub open spec fn row_read(document: JsonView) -> RowView {
    RowView {
        server: match crate::json::member(document, "server"@) {
            Some(server) => server_read(server),
            None => server_read(JsonView::Null),
        },
        status: status_read(document),
    }
}

/// Where the next page begins, as a listing sends it.
pub open spec fn cursor_read(document: JsonView) -> Option<Seq<char>> {
    match crate::json::member(document, "metadata"@) {
        Some(metadata) => crate::json::text_member(metadata, "nextCursor"@),
        None => None,
    }
}

/// A copy of a text that may not be given.
fn copied(text: Option<&String>) -> (r: Option<String>)
    ensures
        crate::text::opt_text(r) == match text {
            Some(given) => Some(given@),
            None => None,
        },
{
    match text {
        Some(given) => Some(given.clone()),
        None => None,
    }
}

/// A copy of a text, empty where it is not given.
fn copied_or_empty(text: Option<&String>) -> (r: String)
    ensures
        r@ == text_or_empty(
            match text {
                Some(given) => Some(given@),
                None => None,
            },
        ),
{
    match text {
        Some(given) => given.clone(),
        None => {
            let r = String::new();
            proof {
                assert(r@ =~= Seq::<char>::empty());
            }
            r
        },
    }
}

/// Reads a list of inputs.
fn read_inputs(document: &Json, name: &str) -> (r: Vec<OfficialInput>)
    ensures
        inputs_said(r@) == inputs_read(crate::json::list_member(document@, name@)),
{
    let mut inputs: Vec<OfficialInput> = Vec::new();
    let ghost listed = crate::json::list_member(document@, name@);
    if let Some(items) = document.get_list(name) {
        let mut at: usize = 0;
        while at < items.len()
            invariant
                listed == crate::json::items_said(items@),
                at <= items@.len(),
                inputs@.len() == at,
                forall|i: int| 0 <= i < at ==> (#[trigger] inputs@[i])@ == input_read(listed[i]),
            decreases items@.len() - at,
        {
            let item = &items[at];
            inputs.push(
                OfficialInput {
                    name: copied_or_empty(item.get_text("name")),
                    description: copied(item.get_text("description")),
                    is_secret: item.get_flag("isSecret"),
                    is_required: item.get_flag("isRequired"),
                },
            );
            at += 1;
        }
    }
    proof {
        assert(inputs_said(inputs@) =~= inputs_read(listed));
    }
    inputs
}

/// Reads a list of launch arguments.
fn read_arguments(document: &Json) -> (r: Vec<String>)
    ensures
        crate::text::texts(r@) == arguments_read(
            crate::json::list_member(document@, "runtimeArguments"@),
        ),
{
    let mut values: Vec<String> = Vec::new();
    let ghost listed = crate::json::list_member(document@, "runtimeArguments"@);
    proof {
        assert(crate::text::texts(values@) =~= Seq::<Seq<char>>::empty());
    }
    if let Some(items) = document.get_list("runtimeArguments") {
        let mut at: usize = 0;
        proof {
            assert(listed.take(0) =~= Seq::empty());
        }
        while at < items.len()
            invariant
                listed == crate::json::items_said(items@),
                at <= items@.len(),
                crate::text::texts(values@) == arguments_read(listed.take(at as int)),
            decreases items@.len() - at,
        {
            proof {
                assert(listed.take(at + 1).drop_last() =~= listed.take(at as int));
                assert(listed.take(at + 1).last() == items@[at as int]@);
            }
            if let Some(value) = items[at].get_text("value") {
                let ghost before = values@;
                values.push(value.clone());
                proof {
                    assert(crate::text::texts(values@) =~= crate::text::texts(before).push(
                        value@,
                    ));
                }
            }
            at += 1;
        }
        proof {
            assert(listed.take(at as int) =~= listed);
        }
    }
    values
}

impl OfficialRemote {
    /// Reads a hosted endpoint.
    pub fn read(document: &Json) -> (r: OfficialRemote)
        ensures
            r@ == remote_read(document@),
    {
        OfficialRemote {
            url: copied(document.get_text("url")),
            headers: read_inputs(document, "headers"),
        }
    }
}

impl OfficialPackage {
    /// Reads a package.
    pub fn read(document: &Json) -> (r: OfficialPackage)
        ensures
            r@ == package_read(document@),
    {
        let config_schema = match document.get("configSchema") {
            Some(schema) => Some(schema.clone()),
            None => None,
        };
        OfficialPackage {
            registry_type: copied_or_empty(document.get_text("registryType")),
            identifier: copied_or_empty(document.get_text("identifier")),
            runtime_hint: copied(document.get_text("runtimeHint")),
            runtime_arguments: read_arguments(document),
            environment_variables: read_inputs(document, "environmentVariables"),
            config_schema,
        }
    }
}

impl OfficialServer {
    /// Reads a server.
    pub fn read(document: &Json) -> (r: OfficialServer)
        ensures
            r@ == server_read(document@),
    {
        let mut remotes: Vec<OfficialRemote> = Vec::new();
        let ghost remotes_listed = crate::json::list_member(document@, "remotes"@);
        if let Some(items) = document.get_list("remotes") {
            let mut at: usize = 0;
            while at < items.len()
                invariant
                    remotes_listed == crate::json::items_said(items@),
                    at <= items@.len(),
                    remotes@.len() == at,
                    forall|i: int|
                        0 <= i < at ==> (#[trigger] remotes@[i])@ == remote_read(
                            remotes_listed[i],
                        ),
                decreases items@.len() - at,
            {
                remotes.push(OfficialRemote::read(&items[at]));
                at += 1;
            }
        }
        let mut packages: Vec<OfficialPackage> = Vec::new();
        let ghost packages_listed = crate::json::list_member(document@, "packages"@);
        if let Some(items) = document.get_list("packages") {
            let mut at: usize = 0;
            while at < items.len()
                invariant
                    packages_listed == crate::json::items_said(items@),
                    at <= items@.len(),
                    packages@.len() == at,
                    forall|i: int|
                        0 <= i < at ==> (#[trigger] packages@[i])@ == package_read(
                            packages_listed[i],
                        ),
                decreases items@.len() - at,
            {
                packages.push(OfficialPackage::read(&items[at]));
                at += 1;
            }
        }
        proof {
            assert(remotes_said(remotes@) =~= server_read(document@).remotes);
            assert(packages_said(packages@) =~= server_read(document@).packages);
        }
        OfficialServer {
            name: copied_or_empty(document.get_text("name")),
            title: copied(document.get_text("title")),
            description: copied(document.get_text("description")),
            website_url: copied(document.get_text("websiteUrl")),
            remotes,
            packages,
        }
    }
}

impl OfficialRow {
    /// Reads a row; `None` where it has no envelope.
    pub fn read(document: &Json) -> (r: Option<OfficialRow>)
        ensures
            match r {
                Some(row) => has_envelope(document@) && row@ == row_read(document@),
                None => !has_envelope(document@),
            },
    {
        let status = match document.get("_meta") {
            Some(meta) => match meta.get(OFFICIAL_META) {
                Some(official) => copied(official.get_text("status")),
                None => None,
            },
            None => None,
        };
        match document.get("server") {
            Some(server) => match server {
                Json::Object(_) => Some(OfficialRow { server: OfficialServer::read(server), status }),
                _ => None,
            },
            None => None,
        }
    }
}

/// Whether more rows follow a page: it names where the next one begins. An
/// empty cursor counts as none.
pub open spec fn more_follows(cursor: Option<Seq<char>>) -> bool {
    cursor matches Some(text) && text.len() > 0
}

impl OfficialListResponse {
    /// Reads a page of a listing. A row without its envelope is refused.
    pub fn read(document: &Json) -> (r: Result<OfficialListResponse, Error>)
        ensures
            ({
                let listed = crate::json::list_member(document@, "servers"@);
                if forall|i: int| 0 <= i < listed.len() ==> has_envelope(#[trigger] listed[i]) {
                    r matches Ok(page) && rows_said(page.servers@) == listed.map_values(
                        |item: JsonView| row_read(item),
                    ) && crate::text::opt_text(page.cursor) == cursor_read(document@)
                } else {
                    r matches Err(Error::MalformedResponse { detail }) && detail@
                        == "a registry row has no `server` object"@
                }
            }),
    {
        let mut rows: Vec<OfficialRow> = Vec::new();
        let ghost listed = crate::json::list_member(document@, "servers"@);
        if let Some(items) = document.get_list("servers") {
            let mut at: usize = 0;
            while at < items.len()
                invariant
                    listed == crate::json::list_member(document@, "servers"@),
                    listed == crate::json::items_said(items@),
                    at <= items@.len(),
                    rows@.len() == at,
                    forall|i: int|
                        0 <= i < at ==> has_envelope(#[trigger] listed[i]) && rows@[i]@ == row_read(
                            listed[i],
                        ),
                decreases items@.len() - at,
            {
                assert(listed[at as int] == items@[at as int]@);
                match OfficialRow::read(&items[at]) {
                    Some(row) => {
                        rows.push(row);
                    },
                    None => {
                        return Err(
                            Error::malformed("a registry row has no `server` object".to_owned()),
                        );
                    },
                }
                at += 1;
            }
        }
        proof {
            assert(rows_said(rows@) =~= listed.map_values(|item: JsonView| row_read(item)));
        }
        let cursor = match document.get("metadata") {
            Some(metadata) => copied(metadata.get_text("nextCursor")),
            None => None,
        };
        Ok(OfficialListResponse { servers: rows, cursor })
    }

    /// Where the next page begins. An empty cursor counts as none: the
    /// registry sends one at the end of a result set, and treating it as a
    /// cursor would page forever.
    #[must_use]
    pub fn next_cursor(&self) -> (r: Option<&str>)
        ensures
            match r {
                Some(cursor) => cursor@.len() > 0 && crate::text::opt_text(self.cursor) == Some(
                    cursor@,
                ),
                None => true,
            },
            r is Some <==> more_follows(crate::text::opt_text(self.cursor)),
    {
        match &self.cursor {
            Some(cursor) => if cursor.as_str().unicode_len() > 0 {
                Some(cursor.as_str())
            } else {
                None
            },
            None => None,
        }
    }
}

} // verus!
