//! What a new record says, and how its server is reached.
use vstd::prelude::*;

use super::installing::{FetchDetail, FindExisting, Insert, InstallStep};
use crate::bus::{CommandKind, RegistryConnection, RegistryServerDetail, Transport};
use crate::error::Error;
use crate::json::JsonView;

verus! {

/// Whether a connection is one of the kinds that name a hosted endpoint.
pub open spec fn names_endpoint(connection: RegistryConnection) -> bool {
    connection.kind@ == "http"@ || connection.kind@ == "http_remote"@ || connection.kind@
        == "sse"@
}

/// Whether a connection is a package that is launched.
pub open spec fn names_package(connection: RegistryConnection) -> bool {
    connection.kind@ == "stdio"@
}

proof fn lemma_kinds()
    ensures
        "http"@.len() == 4,
        "http_remote"@.len() == 11,
        "sse"@.len() == 3,
        "stdio"@.len() == 5,
{
    reveal_strlit("http");
    reveal_strlit("http_remote");
    reveal_strlit("sse");
    reveal_strlit("stdio");
}

/// Two connections alike: both hosted or both packages, both published or both
/// not.
pub open spec fn alike(a: RegistryConnection, b: RegistryConnection) -> bool {
    names_endpoint(a) == names_endpoint(b) && names_package(a) == names_package(b) && a.published
        == b.published
}

/// The connection that is used is one of those offered. It is hosted wherever
/// any is, and a package otherwise; of its kind it is published wherever any is;
/// and it is the first of those alike. None is used exactly where none of a
/// known kind is offered.
pub proof fn which_connection_is_used(connections: Seq<RegistryConnection>)
    ensures
        match super::install::pick(connections) {
            Some(used) => {
                &&& names_endpoint(used) || names_package(used)
                &&& names_package(used) ==> forall|i: int|
                    0 <= i < connections.len() ==> !names_endpoint(#[trigger] connections[i])
                &&& !used.published ==> forall|i: int|
                    0 <= i < connections.len() && names_endpoint(#[trigger] connections[i])
                        == names_endpoint(used) && names_package(connections[i]) == names_package(
                        used,
                    ) ==> !connections[i].published
                &&& exists|at: int|
                    0 <= at < connections.len() && (#[trigger] connections[at]) == used && forall|
                        i: int,
                    |
                        0 <= i < at ==> !alike(#[trigger] connections[i], used)
            },
            None => forall|i: int|
                0 <= i < connections.len() ==> !names_endpoint(#[trigger] connections[i])
                    && !names_package(connections[i]),
        },
{
    lemma_kinds();
    match super::install::pick(connections) {
        Some(used) => {
            let at = choose|at: int| super::install::chosen(connections, at);
            assert(super::install::chosen(connections, at));
            assert(connections[at] == used);
            assert forall|i: int| 0 <= i < at implies !alike(#[trigger] connections[i], used) by {
                assert(super::install::preference(connections[i])
                    < super::install::preference(connections[at]));
            }
            assert forall|i: int| 0 <= i < connections.len() implies super::install::preference(
                #[trigger] connections[i],
            ) <= super::install::preference(used) by {}
        },
        None => {
            assert forall|i: int| 0 <= i < connections.len() implies !names_endpoint(
                #[trigger] connections[i],
            ) && !names_package(connections[i]) by {
                if names_endpoint(connections[i]) || names_package(connections[i]) {
                    assert(super::install::preference(connections[i]) > 0);
                    super::install::something_dialable_is_picked(connections, i);
                }
            }
        },
    }
}

/// What an install's record calls a connection: `http_remote` for each of the
/// hosted kinds, and the kind itself for any other.
pub proof fn what_a_kind_is_called(connection: RegistryConnection)
    ensures
        names_endpoint(connection) ==> super::install::kind_of(connection) == "http_remote"@,
        !names_endpoint(connection) ==> super::install::kind_of(connection) == connection.kind@,
{
    lemma_kinds();
}

/// A new record carries what the catalog says of the server and what its user
/// gave: the name it was looked up by, the names shown, the description, the
/// icon, the configuration and the names of the credentials. It is turned on,
/// has never connected, and keeps the credentials for the store.
pub proof fn a_new_record_carries_what_is_known(
    s: FetchDetail,
    detail: RegistryServerDetail,
    server_id: Seq<char>,
    installed_at: i64,
    next: Insert,
)
    requires
        super::installing::after_detail(
            s,
            Ok(detail),
            server_id,
            installed_at,
            InstallStep::Insert(next),
        ),
    ensures
        next.server.server_id@ == server_id,
        next.server.installed_at == installed_at,
        next.server.qualified_name == s.name,
        next.server.display_name == detail.display_name,
        next.server.description == detail.description,
        next.server.icon_url == detail.icon_url,
        next.server.config == s.config,
        next.server.last_connected_at is None,
        next.server.enabled,
        crate::text::texts(next.server.env_keys@) == crate::env::names_of(s.env@),
        next.env == s.env,
{
}

/// A new record is reached over the connection that is used: at its address,
/// which is not blank, with nothing to launch, where that is hosted, and
/// otherwise by launching it.
pub proof fn a_new_record_is_reached_as_listed(
    s: FetchDetail,
    detail: RegistryServerDetail,
    server_id: Seq<char>,
    installed_at: i64,
    next: Insert,
)
    requires
        super::installing::after_detail(
            s,
            Ok(detail),
            server_id,
            installed_at,
            InstallStep::Insert(next),
        ),
    ensures
        super::install::pick(detail.connections@) matches Some(used) && if names_endpoint(used) {
            &&& next.server.transport matches Transport::HttpRemote { url } && used.deployment_url
                == Some(url) && !crate::text::blank(url@)
            &&& next.server.command@.len() == 0
            &&& next.server.args@.len() == 0
        } else {
            &&& next.server.transport == Transport::Stdio
            &&& launches(
                used,
                s.name@,
                next.server.command_kind,
                next.server.command@,
                crate::text::texts(next.server.args@),
            )
        },
{
    lemma_kinds();
    reveal_strlit("");
    assert(crate::text::texts(next.server.args@).len() == next.server.args@.len());
    what_a_kind_is_called(super::install::pick(detail.connections@)->Some_0);
    how_a_package_is_launched(super::install::pick(detail.connections@)->Some_0, s.name@);
}

/// Whether a launcher is one of the Python ones.
pub open spec fn of_python(command: Seq<char>) -> bool {
    ||| command == "uvx"@
    ||| command == "uv"@
    ||| command == "pipx"@
    ||| "python"@.is_prefix_of(command)
}

/// Whether a package is launched so: as its worked example says, where that
/// names a launcher, with the strings of the example's arguments; else through
/// `npx`, which does not ask, with the name it was looked up by.
pub open spec fn launches(
    connection: RegistryConnection,
    name: Seq<char>,
    kind: CommandKind,
    command: Seq<char>,
    args: Seq<Seq<char>>,
) -> bool {
    if connection.example_config matches Some(example) && crate::json::text_member(
        example@,
        "command"@,
    ) is Some && !crate::text::blank(
        crate::json::text_member(connection.example_config->Some_0@, "command"@)->Some_0,
    ) {
        let example = connection.example_config->Some_0@;
        &&& crate::json::text_member(example, "command"@) == Some(command)
        &&& kind == if of_python(command) {
            CommandKind::Python
        } else {
            CommandKind::Node
        }
        &&& match crate::json::member(example, "args"@) {
            Some(JsonView::Array(items)) => args == crate::json::strings_of(items),
            _ => args.len() == 0,
        }
    } else {
        &&& command == "npx"@
        &&& kind == CommandKind::Node
        &&& args.len() == 2
        &&& args[0] == "-y"@
        &&& args[1] == name
    }
}

/// A package is launched as its worked example says, or through `npx`.
pub proof fn how_a_package_is_launched(connection: RegistryConnection, name: Seq<char>)
    ensures
        ({
            let (kind, command, args) = super::install::launch(name, Some(connection));
            launches(connection, name, kind, command, args)
        }),
        ({
            let (kind, command, args) = super::install::launch(name, None);
            kind == CommandKind::Node && command == "npx"@ && args == seq!["-y"@, name]
        }),
{
    match connection.example_config {
        Some(example) => {
            let said = super::install::example_args(example@);
            assert(crate::json::strings_of(Seq::<JsonView>::empty()) =~= Seq::empty());
        },
        None => {},
    }
}

/// The credentials that an install asks for are the properties of the schema of
/// the connection that is used, each of them, in order, and none of another
/// connection's.
pub proof fn which_credentials_are_asked_for(detail: RegistryServerDetail)
    ensures
        ({
            let asked = super::install::required_env_keys(detail);
            match super::install::pick(detail.connections@) {
                Some(used) => match used.config_schema {
                    Some(schema) => match crate::json::member(schema@, "properties"@) {
                        Some(JsonView::Object(members)) => asked.len() == members.len() && forall|
                            i: int,
                        |
                            0 <= i < members.len() ==> (#[trigger] asked[i]) == members[i].0,
                        _ => asked.len() == 0,
                    },
                    None => asked.len() == 0,
                },
                None => asked.len() == 0,
            }
        }),
{
}

/// A server without a connection of a known kind, or whose hosted endpoint has
/// no address, is refused as malformed: nothing is inserted. Any other server
/// whose detail was had is inserted.
pub proof fn only_what_can_be_reached_is_installed(
    s: FetchDetail,
    detail: RegistryServerDetail,
    server_id: Seq<char>,
    installed_at: i64,
    r: InstallStep,
)
    requires
        super::installing::after_detail(s, Ok(detail), server_id, installed_at, r),
    ensures
        match super::install::pick(detail.connections@) {
            None => r matches InstallStep::Done(Err(e)) && e is MalformedResponse,
            Some(used) => if names_endpoint(used) && (used.deployment_url is None
                || crate::text::blank(used.deployment_url->Some_0@)) {
                r matches InstallStep::Done(Err(e)) && e is MalformedResponse
            } else {
                r is Insert
            },
        },
{
    lemma_kinds();
    match super::install::pick(detail.connections@) {
        Some(used) => {
            what_a_kind_is_called(used);
        },
        None => {},
    }
}

/// An install looks a name up as it was given, but for the white space around
/// it and the source in front of it, and carries on what was given with it. A
/// name without a source is looked up in the official catalog.
pub proof fn an_install_looks_up_what_it_was_given(
    given: Seq<char>,
    env: crate::env::EnvMap,
    config: Option<serde_json::Value>,
    next: FindExisting,
)
    requires
        super::installing::begins(given, env, config, InstallStep::FindExisting(next)),
    ensures
        next.env == env,
        next.config == config,
        crate::text::first_at(crate::text::trimmed(given), "::"@) is None ==> next.name@
            == crate::text::trimmed(given) && next.source@ == "mcp_official"@,
        crate::text::first_at(crate::text::trimmed(given), "::"@) is Some ==> next.source@ + "::"@
            + next.name@ == crate::text::trimmed(given),
{
    let name = crate::text::trimmed(given);
    crate::text::lemma_first_at(name, "::"@);
    match crate::text::first_at(name, "::"@) {
        Some(at) => {
            let mark = name.subrange(at, at + "::"@.len());
            assert(name =~= name.subrange(0, at) + mark + name.subrange(
                at + "::"@.len(),
                name.len() as int,
            ));
        },
        None => {},
    }
}

/// What is found under the name is refreshed, and a catalog is asked only for
/// what is not found, by the name that was looked up and in the source that it
/// names; a source that is not known here is refused.
pub proof fn a_catalog_is_asked_only_for_what_is_absent(
    s: FindExisting,
    reply: Result<Option<crate::bus::InstalledServer>, Error>,
    r: InstallStep,
)
    requires
        super::installing::after_find(s, reply, r),
    ensures
        r is FetchDetail ==> reply == Ok::<Option<crate::bus::InstalledServer>, Error>(None),
        r matches InstallStep::FetchDetail(next) ==> next.name == s.name && next.env == s.env
            && next.config == s.config && s.source@
            == crate::registry::sources::types::identifier(next.source),
        reply == Ok::<Option<crate::bus::InstalledServer>, Error>(None) && s.source@
            != "mcp_official"@ && s.source@ != "smithery"@ ==> (r matches InstallStep::Done(Err(e))
            && e is UnknownServer),
{
}

} // verus!
