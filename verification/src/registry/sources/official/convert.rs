//! What the official registry's rows become.
use vstd::prelude::*;

use super::paging::page_bound;
use super::types::{
    InputView, OfficialInput, OfficialListResponse, OfficialPackage, OfficialRemote, OfficialRow,
    OfficialServer, PackageView, RemoteView, RowView, ServerView,
};
use crate::bus::{RegistryConnection, RegistryServerDetail, RegistryServerSummary};
use crate::error::Error;
use crate::json::{Json, JsonView};
use crate::registry::sources::types::{non_blank, SearchRequest, SOURCE_MCP_OFFICIAL};
use crate::text::{chars_of, lowered, same_text, text_of};

verus! {

/// Whether a character ends a segment of a qualified name.
pub open spec fn ends_segment(c: char) -> bool {
    c == '/' || c == '.'
}

/// What follows the last slash or dot of a name; the whole name where it has
/// neither.
pub open spec fn last_segment(name: Seq<char>) -> Seq<char>
    decreases name.len(),
{
    if name.len() == 0 || ends_segment(name.last()) {
        Seq::empty()
    } else {
        last_segment(name.drop_last()).push(name.last())
    }
}

/// A separator of words read as a space.
pub open spec fn spaced_char(c: char) -> char {
    if c == '-' || c == '_' {
        ' '
    } else {
        c
    }
}

/// A text with its separators of words read as spaces.
pub open spec fn spaced(s: Seq<char>) -> Seq<char> {
    s.map_values(|c: char| spaced_char(c))
}

/// A setting's value, where it is given and not blank.
pub open spec fn given(text: Option<Seq<char>>) -> Option<Seq<char>> {
    match text {
        Some(t) => if crate::text::blank(t) {
            None
        } else {
            Some(t)
        },
        None => None,
    }
}

/// The name to show: the declared title, or one derived from the qualified
/// name, which reads better than `io.github.someone/some-server`.
pub open spec fn shown_name(server: ServerView) -> Seq<char> {
    match given(server.title) {
        Some(title) => title,
        None => spaced(last_segment(server.name)),
    }
}

/// Whether a header is a static credential: it is marked secret, or it is the
/// `Authorization` header, which is one whatever else the registry says.
pub open spec fn header_is_credential(header: InputView) -> bool {
    header.is_secret || crate::text::lower_text(header.name) == "authorization"@
}

/// Whether a server declares a static credential.
pub open spec fn declares_credential(server: ServerView) -> bool {
    ||| exists|i: int, j: int|
        0 <= i < server.remotes.len() && 0 <= j < server.remotes[i].headers.len()
            && header_is_credential(#[trigger] server.remotes[i].headers[j])
    ||| exists|i: int, j: int|
        0 <= i < server.packages.len() && 0 <= j
            < server.packages[i].environment_variables.len() && (
        #[trigger] server.packages[i].environment_variables[j]).is_secret
}

/// Whether a catalog row is what a server becomes. A row is never badged here:
/// badging is curation's, from its own list.
pub open spec fn summary_of(server: ServerView, summary: RegistryServerSummary) -> bool {
    &&& summary.qualified_name@ == server.name
    &&& summary.display_name@ == shown_name(server)
    &&& crate::text::opt_text(summary.description) == server.description
    &&& summary.icon_url is None
    &&& summary.source@ == SOURCE_MCP_OFFICIAL@
    &&& summary.is_deployed == (server.remotes.len() > 0)
    &&& !summary.official
    &&& crate::text::opt_text(summary.website_url) == given(server.website_url)
    &&& crate::text::opt_text(summary.auth_kind) == if declares_credential(server) {
        Some("api_key"@)
    } else {
        None
    }
}

/// Whether a row is worth listing: it is not deprecated, and it offers a way to
/// connect. A user could only discover that a row without one is a dead end by
/// trying to install it.
pub open spec fn worth_listing(row: RowView) -> bool {
    &&& row.status != Some("deprecated"@)
    &&& row.server.remotes.len() > 0 || row.server.packages.len() > 0
}

/// The servers that a page of rows lists, in order, each name once.
pub open spec fn listed(rows: Seq<RowView>) -> Seq<ServerView>
    decreases rows.len(),
{
    if rows.len() == 0 {
        Seq::empty()
    } else {
        let before = listed(rows.drop_last());
        let row = rows.last();
        if worth_listing(row) && !names_server(before, row.server.name) {
            before.push(row.server)
        } else {
            before
        }
    }
}

/// Whether a list has a server of this name.
pub open spec fn names_server(servers: Seq<ServerView>, name: Seq<char>) -> bool {
    exists|i: int| 0 <= i < servers.len() && (#[trigger] servers[i]).name == name
}

/// A listing shows no name twice and nothing that is deprecated or offers no
/// way to connect, and shows every name that something worth listing has.
pub proof fn a_listing_is_complete_and_without_repeats(rows: Seq<RowView>)
    ensures
        forall|i: int, j: int|
            0 <= i < j < listed(rows).len() ==> (#[trigger] listed(rows)[i]).name != (
            #[trigger] listed(rows)[j]).name,
        forall|i: int|
            0 <= i < listed(rows).len() ==> exists|k: int|
                0 <= k < rows.len() && worth_listing(#[trigger] rows[k]) && rows[k].server == (
                #[trigger] listed(rows)[i]),
        forall|k: int|
            0 <= k < rows.len() && worth_listing(#[trigger] rows[k]) ==> names_server(
                listed(rows),
                rows[k].server.name,
            ),
    decreases rows.len(),
{
    if rows.len() > 0 {
        let shorter = rows.drop_last();
        let before = listed(shorter);
        let row = rows.last();
        a_listing_is_complete_and_without_repeats(shorter);
        let now = listed(rows);
        assert forall|i: int| 0 <= i < now.len() implies exists|k: int|
            0 <= k < rows.len() && worth_listing(#[trigger] rows[k]) && rows[k].server == (
            #[trigger] now[i]) by {
            if i < before.len() {
                assert(now[i] == before[i]);
                let k = choose|k: int|
                    0 <= k < shorter.len() && worth_listing(#[trigger] shorter[k])
                        && shorter[k].server == before[i];
                assert(rows[k] == shorter[k]);
            } else {
                assert(rows[rows.len() - 1] == row);
            }
        }
        assert forall|k: int| 0 <= k < rows.len() && worth_listing(#[trigger] rows[k]) implies
            names_server(now, rows[k].server.name) by {
            if k < shorter.len() {
                assert(shorter[k] == rows[k]);
                assert(names_server(before, rows[k].server.name));
                let i = choose|i: int|
                    0 <= i < before.len() && (#[trigger] before[i]).name == rows[k].server.name;
                assert(now[i] == before[i]);
            } else if names_server(before, row.server.name) {
                let i = choose|i: int|
                    0 <= i < before.len() && (#[trigger] before[i]).name == row.server.name;
                assert(now[i] == before[i]);
            } else {
                assert(now[before.len() as int] == row.server);
            }
        }
    }
}

/// The inputs that have a name. One without could neither be prompted for nor
/// sent.
pub open spec fn named(inputs: Seq<InputView>) -> Seq<InputView>
    decreases inputs.len(),
{
    if inputs.len() == 0 {
        Seq::empty()
    } else if crate::text::blank(inputs.last().name) {
        named(inputs.drop_last())
    } else {
        named(inputs.drop_last()).push(inputs.last())
    }
}

/// The names of the inputs that are required.
pub open spec fn required(inputs: Seq<InputView>) -> Seq<JsonView>
    decreases inputs.len(),
{
    if inputs.len() == 0 {
        Seq::empty()
    } else if inputs.last().is_required {
        required(inputs.drop_last()).push(JsonView::Text(inputs.last().name))
    } else {
        required(inputs.drop_last())
    }
}

/// The schema of one input: a string, with its description where it has one,
/// and marked for masking where it is secret.
pub open spec fn property(input: InputView) -> JsonView {
    let kind = seq![("type"@, JsonView::Text("string"@))];
    let described = match input.description {
        Some(text) => kind.push(("description"@, JsonView::Text(text))),
        None => kind,
    };
    JsonView::Object(
        if input.is_secret {
            described.push(("x-secret"@, JsonView::Bool(true)))
        } else {
            described
        },
    )
}

/// The schema that declared inputs come to; none where no input has a name.
pub open spec fn schema_of(inputs: Seq<InputView>) -> Option<JsonView> {
    let known = named(inputs);
    if known.len() == 0 {
        None
    } else {
        Some(
            JsonView::Object(
                seq![
                    ("type"@, JsonView::Text("object"@)),
                    (
                        "properties"@,
                        JsonView::Object(
                            known.map_values(|input: InputView| (input.name, property(input))),
                        ),
                    ),
                    ("required"@, JsonView::Array(required(known))),
                ],
            ),
        )
    }
}

/// The launcher of a package: the one it asks for, `uvx` for a Python one, and
/// `npx` for any other, most of the ecosystem being Node.
pub open spec fn launcher(package: PackageView) -> Seq<char> {
    match given(package.runtime_hint) {
        Some(hint) => hint,
        None => if package.registry_type == "pypi"@ {
            "uvx"@
        } else {
            "npx"@
        },
    }
}

/// The arguments of a package's launch: its own, then its name. `npx` is told
/// not to ask, except where the package gives arguments of its own, which may
/// well be flags that come first.
pub open spec fn launch_args(package: PackageView) -> Seq<Seq<char>> {
    let own = package.runtime_arguments;
    if launcher(package) == "npx"@ && own.len() == 0 {
        seq!["-y"@, package.identifier]
    } else {
        own.push(package.identifier)
    }
}

/// The worked example of a package's launch.
pub open spec fn example_of(package: PackageView) -> JsonView {
    JsonView::Object(
        seq![
            ("command"@, JsonView::Text(launcher(package))),
            (
                "args"@,
                JsonView::Array(
                    launch_args(package).map_values(|arg: Seq<char>| JsonView::Text(arg)),
                ),
            ),
        ],
    )
}

/// What a connection says.
pub struct ConnectionView {
    /// Its kind.
    pub kind: Seq<char>,
    /// Whether it is published.
    pub published: bool,
    /// Its endpoint.
    pub url: Option<Seq<char>>,
    /// The inputs it takes.
    pub schema: Option<JsonView>,
    /// How it is launched.
    pub example: Option<JsonView>,
}

/// What a connection says.
pub open spec fn connection_said(connection: RegistryConnection) -> ConnectionView {
    ConnectionView {
        kind: connection.kind@,
        published: connection.published,
        url: crate::text::opt_text(connection.deployment_url),
        schema: super::types::opt_json(connection.config_schema),
        example: super::types::opt_json(connection.example_config),
    }
}

/// What a list of connections says.
pub open spec fn connections_said(connections: Seq<RegistryConnection>) -> Seq<ConnectionView> {
    connections.map_values(|connection: RegistryConnection| connection_said(connection))
}

/// The connection that a hosted endpoint becomes.
pub open spec fn remote_connection(remote: RemoteView) -> ConnectionView {
    ConnectionView {
        kind: "http"@,
        published: true,
        url: remote.url,
        schema: schema_of(remote.headers),
        example: None,
    }
}

/// The connection that a package becomes. Its schema is what its declared
/// variables come to, or the registry's own where it declares none.
pub open spec fn package_connection(package: PackageView) -> ConnectionView {
    ConnectionView {
        kind: "stdio"@,
        published: true,
        url: None,
        schema: match schema_of(package.environment_variables) {
            Some(schema) => Some(schema),
            None => package.config_schema,
        },
        example: Some(example_of(package)),
    }
}

/// The connections of a server: one for each hosted endpoint, then one for
/// each package.
pub open spec fn connections_of(server: ServerView) -> Seq<ConnectionView> {
    server.remotes.map_values(|remote: RemoteView| remote_connection(remote))
        + server.packages.map_values(|package: PackageView| package_connection(package))
}

/// Whether a detail is what a server becomes.
pub open spec fn detail_of(server: ServerView, detail: RegistryServerDetail) -> bool {
    &&& detail.qualified_name@ == server.name
    &&& detail.display_name@ == shown_name(server)
    &&& crate::text::opt_text(detail.description) == server.description
    &&& detail.icon_url is None
    &&& connections_said(detail.connections@) == connections_of(server)
}

/// The name derived from a qualified name.
fn derived_name(name: &str) -> (r: String)
    ensures
        r@ == spaced(last_segment(name@)),
{
    let chars = chars_of(name);
    let mut start: usize = chars.len();
    proof {
        assert(chars@.subrange(start as int, chars@.len() as int) =~= Seq::empty());
        assert(chars@.take(start as int) =~= chars@);
    }
    while start > 0 && !(chars[start - 1] == '/' || chars[start - 1] == '.')
        invariant
            start <= chars@.len(),
            last_segment(chars@) == last_segment(chars@.take(start as int)) + chars@.subrange(
                start as int,
                chars@.len() as int,
            ),
        decreases start,
    {
        proof {
            let head = chars@.take(start as int);
            assert(head.drop_last() =~= chars@.take(start - 1));
            assert(last_segment(head) == last_segment(chars@.take(start - 1)).push(
                chars@[start - 1],
            ));
            assert(last_segment(chars@.take(start - 1)).push(chars@[start - 1]) + chars@.subrange(
                start as int,
                chars@.len() as int,
            ) =~= last_segment(chars@.take(start - 1)) + chars@.subrange(
                start - 1,
                chars@.len() as int,
            ));
        }
        start -= 1;
    }
    proof {
        let head = chars@.take(start as int);
        assert(last_segment(head) =~= Seq::empty());
        assert(last_segment(chars@) =~= chars@.subrange(start as int, chars@.len() as int));
    }
    let mut shown: Vec<char> = Vec::new();
    let mut at: usize = start;
    while at < chars.len()
        invariant
            start <= at <= chars@.len(),
            shown@.len() == at - start,
            forall|i: int|
                0 <= i < shown@.len() ==> #[trigger] shown@[i] == spaced_char(chars@[start + i]),
        decreases chars@.len() - at,
    {
        let c = chars[at];
        if c == '-' || c == '_' {
            shown.push(' ');
        } else {
            shown.push(c);
        }
        at += 1;
    }
    proof {
        assert(shown@ =~= spaced(last_segment(name@)));
        assert(shown@.subrange(0, shown@.len() as int) =~= shown@);
    }
    text_of(&shown, 0, shown.len())
}

/// Whether a hosted endpoint takes a static credential.
fn remote_has_credential(remote: &OfficialRemote) -> (r: bool)
    ensures
        r == exists|j: int|
            0 <= j < remote@.headers.len() && header_is_credential(#[trigger] remote@.headers[j]),
{
    let mut at: usize = 0;
    while at < remote.headers.len()
        invariant
            at <= remote.headers@.len(),
            forall|j: int| 0 <= j < at ==> !header_is_credential(#[trigger] remote@.headers[j]),
        decreases remote.headers@.len() - at,
    {
        assert(remote@.headers[at as int] == remote.headers@[at as int]@);
        let header = &remote.headers[at];
        if header.is_secret || same_text(
            lowered(header.name.as_str()).as_str(),
            "authorization",
        ) {
            return true;
        }
        at += 1;
    }
    false
}

/// Whether a package takes a secret.
fn package_has_secret(package: &OfficialPackage) -> (r: bool)
    ensures
        r == exists|j: int|
            0 <= j < package@.environment_variables.len() && (
            #[trigger] package@.environment_variables[j]).is_secret,
{
    let mut at: usize = 0;
    while at < package.environment_variables.len()
        invariant
            at <= package.environment_variables@.len(),
            forall|j: int|
                0 <= j < at ==> !(#[trigger] package@.environment_variables[j]).is_secret,
        decreases package.environment_variables@.len() - at,
    {
        assert(package@.environment_variables[at as int]
            == package.environment_variables@[at as int]@);
        if package.environment_variables[at].is_secret {
            return true;
        }
        at += 1;
    }
    false
}

/// A copy of a text that may not be given.
fn copied(text: &Option<String>) -> (r: Option<String>)
    ensures
        crate::text::opt_text(r) == crate::text::opt_text(*text),
{
    match text {
        Some(given) => Some(given.clone()),
        None => None,
    }
}

/// The schema of one input.
fn property_schema(input: &OfficialInput) -> (r: Json)
    ensures
        r@ == property(input@),
{
    let mut members: Vec<(String, Json)> = Vec::new();
    members.push(("type".to_owned(), Json::text("string")));
    if let Some(description) = &input.description {
        members.push(("description".to_owned(), Json::text(description.as_str())));
    }
    if input.is_secret {
        members.push(("x-secret".to_owned(), Json::Bool(true)));
    }
    proof {
        match property(input@) {
            JsonView::Object(wanted) => {
                assert(crate::json::members_said(members@) =~= wanted);
            },
            _ => {},
        }
    }
    Json::object(members)
}

/// The schema that declared inputs come to.
fn inputs_schema(inputs: &Vec<OfficialInput>) -> (r: Option<Json>)
    ensures
        super::types::opt_json(r) == schema_of(super::types::inputs_said(inputs@)),
{
    let ghost said = super::types::inputs_said(inputs@);
    let mut properties: Vec<(String, Json)> = Vec::new();
    let mut needed: Vec<Json> = Vec::new();
    let mut at: usize = 0;
    proof {
        assert(said.take(0) =~= Seq::empty());
        assert(named(said.take(0)) =~= Seq::empty());
        assert(crate::json::members_said(properties@) =~= named(said.take(0)).map_values(
            |input: InputView| (input.name, property(input)),
        ));
        assert(crate::json::items_said(needed@) =~= required(named(said.take(0))));
    }
    while at < inputs.len()
        invariant
            said == super::types::inputs_said(inputs@),
            at <= inputs@.len(),
            crate::json::members_said(properties@) == named(said.take(at as int)).map_values(
                |input: InputView| (input.name, property(input)),
            ),
            crate::json::items_said(needed@) == required(named(said.take(at as int))),
        decreases inputs@.len() - at,
    {
        let input = &inputs[at];
        let ghost so_far = named(said.take(at as int));
        proof {
            assert(said.take(at + 1).drop_last() =~= said.take(at as int));
            assert(said.take(at + 1).last() == input@);
        }
        if input.name.as_str().trim().unicode_len() > 0 {
            let ghost properties_before = properties@;
            let ghost needed_before = needed@;
            let schema = property_schema(input);
            properties.push((input.name.clone(), schema));
            if input.is_required {
                needed.push(Json::text(input.name.as_str()));
            }
            proof {
                let now = named(said.take(at + 1));
                assert(now == so_far.push(input@));
                assert(now.drop_last() =~= so_far);
                assert(crate::json::members_said(properties@) =~= crate::json::members_said(
                    properties_before,
                ).push((input@.name, property(input@))));
                assert(crate::json::members_said(properties@) =~= now.map_values(
                    |input: InputView| (input.name, property(input)),
                ));
                if input.is_required {
                    assert(crate::json::items_said(needed@) =~= crate::json::items_said(
                        needed_before,
                    ).push(JsonView::Text(input@.name)));
                }
            }
        }
        at += 1;
    }
    proof {
        assert(said.take(at as int) =~= said);
    }
    if properties.len() == 0 {
        proof {
            assert(named(said).len() == crate::json::members_said(properties@).len());
        }
        return None;
    }
    let ghost known = named(said);
    proof {
        assert(known.len() == crate::json::members_said(properties@).len());
    }
    let mut members: Vec<(String, Json)> = Vec::new();
    members.push(("type".to_owned(), Json::text("object")));
    members.push(("properties".to_owned(), Json::object(properties)));
    members.push(("required".to_owned(), Json::array(needed)));
    proof {
        match schema_of(said) {
            Some(JsonView::Object(wanted)) => {
                assert(crate::json::members_said(members@) =~= wanted);
            },
            _ => {},
        }
    }
    Some(Json::object(members))
}

/// The worked example of a package's launch.
fn package_example(package: &OfficialPackage) -> (r: Json)
    ensures
        r@ == example_of(package@),
{
    let command = match non_blank(copied(&package.runtime_hint)) {
        Some(hint) => hint,
        None => if same_text(package.registry_type.as_str(), "pypi") {
            "uvx".to_owned()
        } else {
            "npx".to_owned()
        },
    };
    let ghost own = package@.runtime_arguments;
    let mut args: Vec<Json> = Vec::new();
    if same_text(command.as_str(), "npx") && package.runtime_arguments.len() == 0 {
        args.push(Json::text("-y"));
    } else {
        let mut at: usize = 0;
        while at < package.runtime_arguments.len()
            invariant
                own == package@.runtime_arguments,
                at <= package.runtime_arguments@.len(),
                args@.len() == at,
                forall|i: int| 0 <= i < at ==> (#[trigger] args@[i])@ == JsonView::Text(own[i]),
            decreases package.runtime_arguments@.len() - at,
        {
            args.push(Json::text(package.runtime_arguments[at].as_str()));
            at += 1;
        }
    }
    args.push(Json::text(package.identifier.as_str()));
    proof {
        assert(crate::json::items_said(args@) =~= launch_args(package@).map_values(
            |arg: Seq<char>| JsonView::Text(arg),
        ));
    }
    let mut members: Vec<(String, Json)> = Vec::new();
    members.push(("command".to_owned(), Json::text(command.as_str())));
    members.push(("args".to_owned(), Json::array(args)));
    proof {
        match example_of(package@) {
            JsonView::Object(wanted) => {
                assert(crate::json::members_said(members@) =~= wanted);
            },
            _ => {},
        }
    }
    Json::object(members)
}

impl OfficialServer {
    /// The name to show.
    #[must_use]
    pub fn display_name(&self) -> (r: String)
        ensures
            r@ == shown_name(self@),
    {
        match non_blank(copied(&self.title)) {
            Some(title) => title,
            None => derived_name(self.name.as_str()),
        }
    }

    /// Whether the server declares a static credential.
    fn has_credential(&self) -> (r: bool)
        ensures
            r == declares_credential(self@),
    {
        let mut at: usize = 0;
        while at < self.remotes.len()
            invariant
                at <= self.remotes@.len(),
                forall|i: int, j: int|
                    0 <= i < at && 0 <= j < self@.remotes[i].headers.len()
                        ==> !header_is_credential(#[trigger] self@.remotes[i].headers[j]),
            decreases self.remotes@.len() - at,
        {
            assert(self@.remotes[at as int] == self.remotes@[at as int]@);
            if remote_has_credential(&self.remotes[at]) {
                return true;
            }
            at += 1;
        }
        let mut at: usize = 0;
        while at < self.packages.len()
            invariant
                at <= self.packages@.len(),
                forall|i: int, j: int|
                    0 <= i < self@.remotes.len() && 0 <= j < self@.remotes[i].headers.len()
                        ==> !header_is_credential(#[trigger] self@.remotes[i].headers[j]),
                forall|i: int, j: int|
                    0 <= i < at && 0 <= j < self@.packages[i].environment_variables.len() ==> !(
                    #[trigger] self@.packages[i].environment_variables[j]).is_secret,
            decreases self.packages@.len() - at,
        {
            assert(self@.packages[at as int] == self.packages@[at as int]@);
            if package_has_secret(&self.packages[at]) {
                return true;
            }
            at += 1;
        }
        false
    }

    /// The catalog row that the server becomes.
    #[must_use]
    pub fn into_summary(self) -> (r: RegistryServerSummary)
        ensures
            summary_of(self@, r),
    {
        self.summary()
    }

    /// The catalog row that the server becomes.
    fn summary(&self) -> (r: RegistryServerSummary)
        ensures
            summary_of(self@, r),
    {
        let auth_kind = if self.has_credential() {
            Some("api_key".to_owned())
        } else {
            None
        };
        RegistryServerSummary {
            qualified_name: self.name.clone(),
            display_name: self.display_name(),
            description: copied(&self.description),
            icon_url: None,
            source: SOURCE_MCP_OFFICIAL.to_owned(),
            is_deployed: self.remotes.len() > 0,
            official: false,
            website_url: non_blank(copied(&self.website_url)),
            auth_kind,
        }
    }

    /// The detail that the server becomes.
    #[must_use]
    pub fn into_detail(self) -> (r: RegistryServerDetail)
        ensures
            detail_of(self@, r),
    {
        let mut connections: Vec<RegistryConnection> = Vec::new();
        let ghost hosted = self@.remotes.map_values(
            |remote: RemoteView| remote_connection(remote),
        );
        let ghost packaged = self@.packages.map_values(
            |package: PackageView| package_connection(package),
        );
        let mut at: usize = 0;
        while at < self.remotes.len()
            invariant
                hosted == self@.remotes.map_values(|remote: RemoteView| remote_connection(remote)),
                at <= self.remotes@.len(),
                connections@.len() == at,
                forall|i: int|
                    0 <= i < at ==> connection_said(#[trigger] connections@[i]) == hosted[i],
            decreases self.remotes@.len() - at,
        {
            let remote = &self.remotes[at];
            assert(self@.remotes[at as int] == remote@);
            connections.push(
                RegistryConnection {
                    kind: "http".to_owned(),
                    published: true,
                    deployment_url: copied(&remote.url),
                    config_schema: inputs_schema(&remote.headers),
                    example_config: None,
                },
            );
            at += 1;
        }
        let first: usize = self.remotes.len();
        let mut at: usize = 0;
        while at < self.packages.len()
            invariant
                packaged == self@.packages.map_values(
                    |package: PackageView| package_connection(package),
                ),
                hosted.len() == first,
                at <= self.packages@.len(),
                connections@.len() == first + at,
                forall|i: int|
                    0 <= i < first ==> connection_said(#[trigger] connections@[i]) == hosted[i],
                forall|i: int|
                    first <= i < first + at ==> connection_said(#[trigger] connections@[i])
                        == packaged[i - first],
            decreases self.packages@.len() - at,
        {
            let package = &self.packages[at];
            assert(self@.packages[at as int] == package@);
            let config_schema = match inputs_schema(&package.environment_variables) {
                Some(schema) => Some(schema),
                None => match &package.config_schema {
                    Some(schema) => Some(schema.clone()),
                    None => None,
                },
            };
            connections.push(
                RegistryConnection {
                    kind: "stdio".to_owned(),
                    published: true,
                    deployment_url: None,
                    config_schema,
                    example_config: Some(package_example(package)),
                },
            );
            at += 1;
        }
        proof {
            assert(connections_said(connections@) =~= connections_of(self@));
        }
        let display_name = self.display_name();
        RegistryServerDetail {
            qualified_name: self.name,
            display_name,
            description: self.description,
            icon_url: None,
            connections,
        }
    }
}

impl OfficialRow {
    /// Whether the row is worth listing.
    fn is_worth_listing(&self) -> (r: bool)
        ensures
            r == worth_listing(self@),
    {
        let deprecated = match &self.status {
            Some(status) => same_text(status.as_str(), "deprecated"),
            None => false,
        };
        !deprecated && (self.server.remotes.len() > 0 || self.server.packages.len() > 0)
    }
}

impl OfficialListResponse {
    /// The catalog rows that a page becomes: those worth listing, in order,
    /// each name once.
    #[must_use]
    pub fn into_summaries(self) -> (r: Vec<RegistryServerSummary>)
        ensures
            summaries_of(super::types::rows_said(self.servers@), r@),
    {
        let ghost rows = super::types::rows_said(self.servers@);
        let mut summaries: Vec<RegistryServerSummary> = Vec::new();
        let mut at: usize = 0;
        proof {
            assert(rows.take(0) =~= Seq::empty());
        }
        while at < self.servers.len()
            invariant
                rows == super::types::rows_said(self.servers@),
                at <= self.servers@.len(),
                summaries@.len() == listed(rows.take(at as int)).len(),
                forall|i: int|
                    0 <= i < summaries@.len() ==> summary_of(
                        listed(rows.take(at as int))[i],
                        #[trigger] summaries@[i],
                    ),
            decreases self.servers@.len() - at,
        {
            let row = &self.servers[at];
            let ghost before = listed(rows.take(at as int));
            proof {
                assert(rows.take(at + 1).drop_last() =~= rows.take(at as int));
                assert(rows.take(at + 1).last() == row@);
            }
            let repeated = has_name(&summaries, row.server.name.as_str());
            proof {
                assert(repeated == names_server(before, row@.server.name)) by {
                    if repeated {
                        let i = choose|i: int|
                            0 <= i < summaries@.len() && (
                            #[trigger] summaries@[i]).qualified_name@ == row.server.name@;
                        assert(before[i].name == row@.server.name);
                    } else if names_server(before, row@.server.name) {
                        let i = choose|i: int|
                            0 <= i < before.len() && (#[trigger] before[i]).name
                                == row@.server.name;
                        assert(summaries@[i].qualified_name@ == row.server.name@);
                    }
                }
            }
            if row.is_worth_listing() && !repeated {
                summaries.push(row.server.summary());
            }
            at += 1;
        }
        proof {
            assert(rows.take(at as int) =~= rows);
        }
        summaries
    }
}

/// Whether these rows are what a page of rows becomes: those worth listing, in
/// order, each name once.
pub open spec fn summaries_of(rows: Seq<RowView>, summaries: Seq<RegistryServerSummary>) -> bool {
    &&& summaries.len() == listed(rows).len()
    &&& forall|i: int|
        0 <= i < summaries.len() ==> summary_of(listed(rows)[i], #[trigger] summaries[i])
}

/// What a search of the official registry comes to, given its response: the
/// rows, and the bound on the page count that the response implies.
#[must_use]
pub fn official_page(request: &SearchRequest, response: OfficialListResponse) -> (r: (
    Vec<RegistryServerSummary>,
    u32,
))
    ensures
        summaries_of(super::types::rows_said(response.servers@), r.0@),
        r.1 == super::paging::bound(
            request.page,
            super::types::more_follows(crate::text::opt_text(response.cursor)),
        ),
{
    let more = response.next_cursor().is_some();
    let pages: u32 = page_bound(request.page, more);
    (response.into_summaries(), pages)
}

/// What a search of the official registry comes to, given the document that it
/// sent. A row without its envelope is refused.
pub fn read_official_page(request: &SearchRequest, document: &Json) -> (r: Result<
    (Vec<RegistryServerSummary>, u32),
    Error,
>)
    ensures
        ({
            let rows = crate::json::list_member(document@, "servers"@);
            if forall|i: int|
                0 <= i < rows.len() ==> super::types::has_envelope(#[trigger] rows[i]) {
                r matches Ok(page) && summaries_of(
                    rows.map_values(|row: JsonView| super::types::row_read(row)),
                    page.0@,
                ) && page.1 == super::paging::bound(
                    request.page,
                    super::types::more_follows(super::types::cursor_read(document@)),
                )
            } else {
                r matches Err(Error::MalformedResponse { detail }) && detail@
                    == "a registry row has no `server` object"@
            }
        }),
{
    match OfficialListResponse::read(document) {
        Ok(response) => Ok(official_page(request, response)),
        Err(e) => Err(e),
    }
}

/// Whether a row of this name is there.
fn has_name(summaries: &Vec<RegistryServerSummary>, name: &str) -> (r: bool)
    ensures
        r == exists|i: int|
            0 <= i < summaries@.len() && (#[trigger] summaries@[i]).qualified_name@ == name@,
{
    let mut at: usize = 0;
    while at < summaries.len()
        invariant
            at <= summaries@.len(),
            forall|i: int| 0 <= i < at ==> (#[trigger] summaries@[i]).qualified_name@ != name@,
        decreases summaries@.len() - at,
    {
        if same_text(summaries[at].qualified_name.as_str(), name) {
            return true;
        }
        at += 1;
    }
    false
}

/// The strings of an array of strings are those strings.
proof fn lemma_strings_of(args: Seq<Seq<char>>)
    ensures
        crate::json::strings_of(args.map_values(|arg: Seq<char>| JsonView::Text(arg))) == args,
    decreases args.len(),
{
    let items = args.map_values(|arg: Seq<char>| JsonView::Text(arg));
    if args.len() > 0 {
        lemma_strings_of(args.drop_last());
        assert(items.drop_last() =~= args.drop_last().map_values(
            |arg: Seq<char>| JsonView::Text(arg),
        ));
        assert(items.last() == JsonView::Text(args.last()));
        assert(args =~= args.drop_last().push(args.last()));
    } else {
        assert(args =~= Seq::empty());
    }
}

/// A launcher is never blank.
proof fn lemma_launcher(package: PackageView)
    ensures
        !crate::text::blank(launcher(package)),
{
    reveal_strlit("uvx");
    reveal_strlit("npx");
    assert("uvx"@[0] == 'u');
    assert("npx"@[0] == 'n');
    crate::text::blank_means_all_white_space("uvx"@);
    crate::text::blank_means_all_white_space("npx"@);
}

/// A package of the official registry is launched as it declares: what an
/// install reads from the worked example is the launcher and the arguments
/// that the package comes to.
pub proof fn a_package_is_launched_as_it_declares(package: PackageView)
    ensures
        crate::registry::ops::install::example_command(example_of(package)) == Some(
            launcher(package),
        ),
        crate::registry::ops::install::example_args(example_of(package)) == launch_args(package),
{
    reveal_strlit("command");
    reveal_strlit("args");
    assert("command"@.len() == 7 && "args"@.len() == 4);
    lemma_launcher(package);
    lemma_strings_of(launch_args(package));
    match example_of(package) {
        JsonView::Object(members) => {
            crate::json::lemma_member_at(members, "command"@);
            crate::json::lemma_member_at(members, "args"@);
            assert(members[0].0 == "command"@);
            assert(members[1].0 == "args"@);
        },
        _ => {},
    }
}

/// What an install has to ask for is what the server declares: the inputs of a
/// schema made of declared inputs are the named ones, in order.
pub proof fn the_declared_inputs_are_asked_for(inputs: Seq<InputView>)
    ensures
        match schema_of(inputs) {
            Some(schema) => crate::registry::ops::install::inputs_of(schema) == named(
                inputs,
            ).map_values(|input: InputView| input.name),
            None => named(inputs).len() == 0,
        },
{
    let known = named(inputs);
    if known.len() > 0 {
        reveal_strlit("type");
        reveal_strlit("properties");
        reveal_strlit("required");
        assert("type"@.len() == 4 && "properties"@.len() == 10 && "required"@.len() == 8);
        match schema_of(inputs) {
            Some(JsonView::Object(members)) => {
                crate::json::lemma_member_at(members, "properties"@);
                assert(members[0].0 == "type"@);
                assert(members[1].0 == "properties"@);
                assert(members[2].0 == "required"@);
            },
            _ => {},
        }
        let properties = known.map_values(|input: InputView| (input.name, property(input)));
        assert(crate::registry::ops::install::member_names(properties) =~= known.map_values(
            |input: InputView| input.name,
        ));
    }
}

} // verus!
