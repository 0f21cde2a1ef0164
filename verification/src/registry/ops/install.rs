//! How a catalog's listing becomes an install.
use vstd::prelude::*;

use crate::bus::{CommandKind, RegistryConnection, RegistryServerDetail, Transport};
use crate::error::Error;
use crate::json::{Json, JsonView};
use crate::text::{chars_of, same_text, text3};

verus! {

/// What an install record calls a connection's kind. Catalogs say `http` where
/// an install says `http_remote`, and server-sent events are a hosted endpoint
/// too; a kind with no counterpart keeps its name.
pub open spec fn kind_of(connection: RegistryConnection) -> Seq<char> {
    let kind = connection.kind@;
    if kind == "http"@ || kind == "sse"@ {
        "http_remote"@
    } else {
        kind
    }
}

/// Whether a connection is a hosted endpoint.
pub open spec fn hosted(connection: RegistryConnection) -> bool {
    kind_of(connection) == "http_remote"@
}

/// Whether a connection is a package that is launched.
pub open spec fn packaged(connection: RegistryConnection) -> bool {
    kind_of(connection) == "stdio"@
}

/// How much a connection is preferred: a hosted endpoint over a package, and
/// of two alike the one that is published. Nothing that cannot be dialled is
/// preferred at all.
///
/// A package needs a runtime, a resolved package and its credentials, three
/// ways to fail before the server is reached.
pub open spec fn preference(connection: RegistryConnection) -> nat {
    if hosted(connection) {
        if connection.published {
            4
        } else {
            3
        }
    } else if packaged(connection) {
        if connection.published {
            2
        } else {
            1
        }
    } else {
        0
    }
}

/// Whether the connection at `at` is the one to use: none is preferred over
/// it, and none before it is preferred as much.
pub open spec fn chosen(connections: Seq<RegistryConnection>, at: int) -> bool {
    &&& 0 <= at < connections.len()
    &&& preference(connections[at]) > 0
    &&& forall|i: int|
        0 <= i < connections.len() ==> preference(#[trigger] connections[i]) <= preference(
            connections[at],
        )
    &&& forall|i: int|
        0 <= i < at ==> preference(#[trigger] connections[i]) < preference(connections[at])
}

/// The connection to use, if one can be dialled.
pub open spec fn pick(connections: Seq<RegistryConnection>) -> Option<RegistryConnection> {
    if exists|at: int| chosen(connections, at) {
        Some(connections[choose|at: int| chosen(connections, at)])
    } else {
        None
    }
}

/// Only one connection is the one to use.
pub proof fn the_choice_is_unique(connections: Seq<RegistryConnection>, a: int, b: int)
    requires
        chosen(connections, a),
        chosen(connections, b),
    ensures
        a == b,
{
    if a < b {
        assert(preference(connections[a]) < preference(connections[b]));
        assert(preference(connections[b]) <= preference(connections[a]));
    } else if b < a {
        assert(preference(connections[b]) < preference(connections[a]));
        assert(preference(connections[a]) <= preference(connections[b]));
    }
}

/// A server that offers anything that can be dialled gets a connection.
pub proof fn something_dialable_is_picked(connections: Seq<RegistryConnection>, at: int)
    requires
        0 <= at < connections.len(),
        preference(connections[at]) > 0,
    ensures
        pick(connections) is Some,
    decreases connections.len(),
{
    let last = connections.len() - 1;
    let shorter = connections.drop_last();
    if exists|i: int| 0 <= i < last && preference(#[trigger] connections[i]) > 0 {
        let i = choose|i: int| 0 <= i < last && preference(#[trigger] connections[i]) > 0;
        assert(shorter[i] == connections[i]);
        something_dialable_is_picked(shorter, i);
        let best = choose|i: int| chosen(shorter, i);
        assert(chosen(shorter, best));
        assert forall|i: int| 0 <= i < last implies preference(#[trigger] connections[i])
            <= preference(shorter[best]) by {
            assert(shorter[i] == connections[i]);
        }
        if preference(connections[last]) > preference(shorter[best]) {
            assert(chosen(connections, last));
        } else {
            assert forall|i: int| 0 <= i < best implies preference(#[trigger] connections[i])
                < preference(connections[best]) by {
                assert(shorter[i] == connections[i]);
            }
            assert(chosen(connections, best));
        }
    } else {
        assert(at == last);
        assert(chosen(connections, last));
    }
}

/// A server that offers a hosted endpoint is installed over one, and over a
/// published one where there is one.
pub proof fn a_hosted_endpoint_is_preferred(connections: Seq<RegistryConnection>, at: int)
    requires
        0 <= at < connections.len(),
        hosted(connections[at]),
    ensures
        pick(connections) matches Some(picked) && hosted(picked) && (connections[at].published
            ==> picked.published),
{
    something_dialable_is_picked(connections, at);
    let best = choose|i: int| chosen(connections, i);
    assert(chosen(connections, best));
    assert(preference(connections[at]) <= preference(connections[best]));
}

/// What an install record calls a connection's kind.
#[must_use]
pub fn transport_kind(connection: &RegistryConnection) -> (r: &str)
    ensures
        r@ == kind_of(*connection),
{
    let kind = connection.kind.as_str();
    if same_text(kind, "http") || same_text(kind, "sse") {
        "http_remote"
    } else {
        kind
    }
}

/// How much a connection is preferred.
fn weigh(connection: &RegistryConnection) -> (r: u8)
    ensures
        r == preference(*connection),
{
    let kind = transport_kind(connection);
    if same_text(kind, "http_remote") {
        if connection.published {
            4
        } else {
            3
        }
    } else if same_text(kind, "stdio") {
        if connection.published {
            2
        } else {
            1
        }
    } else {
        0
    }
}

/// The connection to use, if one can be dialled.
#[must_use]
pub fn pick_connection(connections: &[RegistryConnection]) -> (r: Option<&RegistryConnection>)
    ensures
        match r {
            Some(picked) => pick(connections@) == Some(*picked),
            None => pick(connections@) is None,
        },
        r is None <==> forall|i: int|
            0 <= i < connections@.len() ==> preference(#[trigger] connections@[i]) == 0,
{
    let mut best: usize = 0;
    let mut weight: u8 = 0;
    let mut at: usize = 0;
    while at < connections.len()
        invariant
            at <= connections@.len(),
            weight == 0 ==> forall|i: int|
                0 <= i < at ==> preference(#[trigger] connections@[i]) == 0,
            weight > 0 ==> chosen(connections@.take(at as int), best as int) && weight
                == preference(connections@[best as int]) && best < at,
        decreases connections@.len() - at,
    {
        let next: u8 = weigh(&connections[at]);
        let ghost seen = connections@.take(at as int);
        let ghost more = connections@.take(at + 1);
        proof {
            assert forall|i: int| 0 <= i < at implies more[i] == seen[i] by {}
            if weight > 0 {
                assert(seen[best as int] == connections@[best as int]);
            }
        }
        if next > weight {
            proof {
                assert forall|i: int| 0 <= i < more.len() implies preference(#[trigger] more[i])
                    <= next by {
                    if i < at {
                        assert(more[i] == seen[i]);
                        if weight == 0 {
                            assert(preference(connections@[i]) == 0);
                        }
                    }
                }
                assert forall|i: int| 0 <= i < at implies preference(#[trigger] more[i])
                    < next by {
                    assert(more[i] == seen[i]);
                    if weight == 0 {
                        assert(preference(connections@[i]) == 0);
                    }
                }
                assert(more[at as int] == connections@[at as int]);
                assert(chosen(more, at as int));
            }
            weight = next;
            best = at;
        } else {
            proof {
                if weight > 0 {
                    assert forall|i: int|
                        0 <= i < more.len() implies preference(#[trigger] more[i])
                        <= weight by {
                        if i < at {
                            assert(more[i] == seen[i]);
                        }
                    }
                    assert forall|i: int| 0 <= i < best implies preference(#[trigger] more[i])
                        < weight by {
                        assert(more[i] == seen[i]);
                    }
                    assert(chosen(more, best as int));
                }
            }
        }
        at += 1;
    }
    proof {
        assert(connections@.take(at as int) == connections@);
    }
    if weight > 0 {
        proof {
            assert(chosen(connections@, best as int));
            let other = choose|i: int| chosen(connections@, i);
            the_choice_is_unique(connections@, best as int, other);
        }
        Some(&connections[best])
    } else {
        proof {
            assert forall|i: int| !chosen(connections@, i) by {
                if 0 <= i < connections@.len() {
                    assert(preference(connections@[i]) == 0);
                }
            }
        }
        None
    }
}

/// The names of an object's members, in order.
pub open spec fn member_names(members: Seq<(Seq<char>, JsonView)>) -> Seq<Seq<char>> {
    members.map_values(|entry: (Seq<char>, JsonView)| entry.0)
}

/// The inputs that a schema declares, in order.
pub open spec fn inputs_of(schema: JsonView) -> Seq<Seq<char>> {
    match crate::json::member(schema, "properties"@) {
        Some(JsonView::Object(members)) => member_names(members),
        _ => Seq::empty(),
    }
}

/// The credentials that installing a server needs: the inputs of the
/// connection that would be used, and of no other. A server that offers both
/// must not demand the package's variables for an install that connects over
/// HTTP and never reads them.
pub open spec fn required_env_keys(detail: RegistryServerDetail) -> Seq<Seq<char>> {
    match pick(detail.connections@) {
        Some(picked) => match picked.config_schema {
            Some(schema) => inputs_of(schema@),
            None => Seq::empty(),
        },
        None => Seq::empty(),
    }
}

/// The credentials that installing a server needs.
#[must_use]
pub fn collect_required_env_keys(detail: &RegistryServerDetail) -> (r: Vec<String>)
    ensures
        crate::text::texts(r@) == required_env_keys(*detail),
{
    match pick_connection(detail.connections.as_slice()) {
        Some(picked) => match &picked.config_schema {
            Some(schema) => match schema.get("properties") {
                Some(Json::Object(members)) => {
                    proof {
                        crate::json::lemma_object(*members);
                    }
                    names_in(members)
                },
                _ => no_texts(),
            },
            None => no_texts(),
        },
        None => no_texts(),
    }
}

/// An empty list of texts.
fn no_texts() -> (r: Vec<String>)
    ensures
        r@ == Seq::<String>::empty(),
        crate::text::texts(r@) == Seq::<Seq<char>>::empty(),
{
    let r: Vec<String> = Vec::new();
    proof {
        assert(crate::text::texts(r@) == Seq::<Seq<char>>::empty());
    }
    r
}

/// The names of an object's members, in order.
fn names_in(members: &Vec<(String, Json)>) -> (r: Vec<String>)
    ensures
        crate::text::texts(r@) == member_names(crate::json::members_said(members@)),
{
    let mut names: Vec<String> = Vec::new();
    let mut at: usize = 0;
    while at < members.len()
        invariant
            at <= members@.len(),
            names@.len() == at,
            forall|i: int| 0 <= i < at ==> (#[trigger] names@[i])@ == members@[i].0@,
        decreases members@.len() - at,
    {
        names.push(members[at].0.clone());
        at += 1;
    }
    proof {
        assert(crate::text::texts(names@) =~= member_names(
            crate::json::members_said(members@),
        ));
    }
    names
}

/// Whether a launcher belongs to the Python ecosystem.
pub open spec fn python_launcher(command: Seq<char>) -> bool {
    command == "uvx"@ || command == "uv"@ || command == "pipx"@ || "python"@.is_prefix_of(command)
}

/// The ecosystem that a launcher names.
pub open spec fn kind_of_launcher(command: Seq<char>) -> CommandKind {
    if python_launcher(command) {
        CommandKind::Python
    } else {
        CommandKind::Node
    }
}

/// The launcher of a worked example, where it names one that is not blank.
pub open spec fn example_command(example: JsonView) -> Option<Seq<char>> {
    match crate::json::text_member(example, "command"@) {
        Some(command) => if crate::text::blank(command) {
            None
        } else {
            Some(command)
        },
        None => None,
    }
}

/// The arguments of a worked example: the strings of its list.
pub open spec fn example_args(example: JsonView) -> Seq<Seq<char>> {
    crate::json::strings_of(crate::json::list_member(example, "args"@))
}

/// How a package is launched: as the catalog's worked example says, or through
/// `npx` where it gives none.
pub open spec fn launch(name: Seq<char>, connection: Option<RegistryConnection>) -> (
    CommandKind,
    Seq<char>,
    Seq<Seq<char>>,
) {
    match connection {
        Some(c) => match c.example_config {
            Some(example) => match example_command(example@) {
                Some(command) => (kind_of_launcher(command), command, example_args(example@)),
                None => npx_launch(name),
            },
            None => npx_launch(name),
        },
        None => npx_launch(name),
    }
}

/// A package launched through `npx`, which does not ask before it fetches.
pub open spec fn npx_launch(name: Seq<char>) -> (CommandKind, Seq<char>, Seq<Seq<char>>) {
    (CommandKind::Node, "npx"@, seq!["-y"@, name])
}

/// Whether a launcher belongs to the Python ecosystem.
fn is_python(command: &str) -> (r: bool)
    ensures
        r == python_launcher(command@),
{
    if same_text(command, "uvx") || same_text(command, "uv") || same_text(command, "pipx") {
        return true;
    }
    begins_with(command, "python")
}

/// Whether a text begins with another.
fn begins_with(text: &str, start: &str) -> (r: bool)
    ensures
        r == start@.is_prefix_of(text@),
{
    let whole = chars_of(text);
    let head = chars_of(start);
    if head.len() > whole.len() {
        return false;
    }
    let mut at: usize = 0;
    while at < head.len()
        invariant
            whole@ == text@,
            head@ == start@,
            at <= head@.len() <= whole@.len(),
            forall|i: int| 0 <= i < at ==> head@[i] == whole@[i],
        decreases head@.len() - at,
    {
        if head[at] != whole[at] {
            proof {
                assert(head@[at as int] != whole@.subrange(0, head@.len() as int)[at as int]);
            }
            return false;
        }
        at += 1;
    }
    proof {
        assert(head@ =~= whole@.subrange(0, head@.len() as int));
    }
    true
}

/// How a package is launched.
#[must_use]
pub fn resolve_command(name: &str, connection: Option<&RegistryConnection>) -> (r: (
    CommandKind,
    String,
    Vec<String>,
))
    ensures
        ({
            let wanted = launch(
                name@,
                match connection {
                    Some(c) => Some(*c),
                    None => None,
                },
            );
            r.0 == wanted.0 && r.1@ == wanted.1 && crate::text::texts(r.2@) == wanted.2
        }),
{
    if let Some(connection) = connection {
        if let Some(example) = &connection.example_config {
            if let Some(command) = example.get_text("command") {
                if command.as_str().trim().unicode_len() > 0 {
                    let kind = if is_python(command.as_str()) {
                        CommandKind::Python
                    } else {
                        CommandKind::Node
                    };
                    let args = match example.get_list("args") {
                        Some(items) => strings_in(items),
                        None => no_texts(),
                    };
                    return (kind, command.clone(), args);
                }
            }
        }
    }
    let args = vec!["-y".to_owned(), name.to_owned()];
    proof {
        assert(crate::text::texts(args@) =~= seq!["-y"@, name@]);
    }
    (CommandKind::Node, "npx".to_owned(), args)
}

/// The strings of an array, in order; what is no string is passed over.
fn strings_in(items: &Vec<Json>) -> (r: Vec<String>)
    ensures
        crate::text::texts(r@) == crate::json::strings_of(crate::json::items_said(items@)),
{
    let ghost listed = crate::json::items_said(items@);
    let mut found = no_texts();
    let mut at: usize = 0;
    proof {
        assert(listed.take(0) =~= Seq::empty());
    }
    while at < items.len()
        invariant
            listed == crate::json::items_said(items@),
            at <= items@.len(),
            crate::text::texts(found@) == crate::json::strings_of(listed.take(at as int)),
        decreases items@.len() - at,
    {
        proof {
            assert(listed.take(at + 1).drop_last() =~= listed.take(at as int));
            assert(listed.take(at + 1).last() == items@[at as int]@);
        }
        if let Json::Text(text) = &items[at] {
            let ghost before = found@;
            found.push(text.clone());
            proof {
                assert(crate::text::texts(found@) =~= crate::text::texts(before).push(text@));
            }
        }
        at += 1;
    }
    proof {
        assert(listed.take(at as int) =~= listed);
    }
    found
}

/// The endpoint of a hosted connection, where it gives one that is not blank.
pub open spec fn endpoint_of(connection: RegistryConnection) -> Option<String> {
    match connection.deployment_url {
        Some(url) => if crate::text::blank(url@) {
            None
        } else {
            Some(url)
        },
        None => None,
    }
}

/// How a server is reached and launched once it is installed over
/// `connection`.
///
/// A hosted connection without an endpoint is refused: installing it would
/// write a record that fails on every connect with nothing its user could fix.
pub fn build_install_transport(name: &str, connection: &RegistryConnection) -> (r: Result<
    (Transport, CommandKind, String, Vec<String>),
    Error,
>)
    ensures
        if hosted(*connection) {
            match endpoint_of(*connection) {
                Some(url) => r matches Ok(built) && built.0 == (Transport::HttpRemote { url })
                    && built.1 == CommandKind::Node && built.2@ == ""@ && built.3@.len() == 0,
                None => r matches Err(Error::MalformedResponse { detail }) && detail@ == "`"@
                    + name@ + "` is listed as hosted but publishes no endpoint"@,
            }
        } else {
            let wanted = launch(name@, Some(*connection));
            r matches Ok(built) && built.0 == Transport::Stdio && built.1 == wanted.0
                && built.2@ == wanted.1 && crate::text::texts(built.3@) == wanted.2
        },
{
    if same_text(transport_kind(connection), "http_remote") {
        if let Some(url) = &connection.deployment_url {
            if url.as_str().trim().unicode_len() > 0 {
                return Ok(
                    (
                        Transport::HttpRemote { url: url.clone() },
                        CommandKind::Node,
                        "".to_owned(),
                        Vec::new(),
                    ),
                );
            }
        }
        Err(
            Error::malformed(
                text3("`", name, "` is listed as hosted but publishes no endpoint"),
            ),
        )
    } else {
        let (kind, command, args) = resolve_command(name, Some(connection));
        Ok((Transport::Stdio, kind, command, args))
    }
}

} // verus!
