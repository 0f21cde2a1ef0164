//! What holds of every row and every detail of the official registry.
//!
//! Each law speaks of what the registry sent and of what became of it.
use vstd::prelude::*;

use super::types::{InputView, RowView, ServerView};
use crate::bus::{RegistryServerDetail, RegistryServerSummary};
use crate::json::JsonView;

verus! {

/// Whether an input has a name.
pub open spec fn is_named(input: InputView) -> bool {
    !crate::text::blank(input.name)
}

/// Whether a property says of an input what the input says of itself: that it
/// is a string, what it is for where that is said, and that it is to be masked
/// exactly where it is secret.
pub open spec fn describes(property: JsonView, input: InputView) -> bool {
    &&& crate::json::text_member(property, "type"@) == Some("string"@)
    &&& crate::json::text_member(property, "description"@) == input.description
    &&& crate::json::flag_member(property, "x-secret"@) == input.is_secret
    &&& crate::json::member(property, "x-secret"@) is Some <==> input.is_secret
}

/// Whether a schema declares these inputs: a property for each that has a name,
/// in the order declared, and under `required` the names of those that are
/// required, in that order. Where no input has a name there is no schema.
pub open spec fn declares(schema: Option<JsonView>, inputs: Seq<InputView>) -> bool {
    match schema {
        None => forall|i: int| 0 <= i < inputs.len() ==> !is_named(#[trigger] inputs[i]),
        Some(document) => {
            &&& exists|i: int| 0 <= i < inputs.len() && is_named(#[trigger] inputs[i])
            &&& crate::json::text_member(document, "type"@) == Some("object"@)
            &&& crate::json::member(document, "properties"@) matches Some(
                JsonView::Object(properties),
            ) && lists_properties(properties, inputs)
            &&& crate::json::member(document, "required"@) matches Some(JsonView::Array(names))
                && lists_required(names, inputs)
        },
    }
}

/// Whether these are the properties of the named inputs, in order.
pub open spec fn lists_properties(
    properties: Seq<(Seq<char>, JsonView)>,
    inputs: Seq<InputView>,
) -> bool {
    exists|picked: Seq<int>|
        #![trigger picked.len()]
        crate::order::in_order(picked, inputs.len() as int, |i: int| is_named(inputs[i]))
            && properties.len() == picked.len() && forall|k: int|
            0 <= k < picked.len() ==> (#[trigger] properties[k]).0 == inputs[picked[k]].name
                && describes(properties[k].1, inputs[picked[k]])
}

/// Whether these are the names of the named inputs that are required, in order.
pub open spec fn lists_required(names: Seq<JsonView>, inputs: Seq<InputView>) -> bool {
    exists|picked: Seq<int>|
        #![trigger picked.len()]
        crate::order::in_order(
            picked,
            inputs.len() as int,
            |i: int| is_named(inputs[i]) && inputs[i].is_required,
        ) && names.len() == picked.len() && forall|k: int|
            0 <= k < picked.len() ==> (#[trigger] names[k]) == JsonView::Text(
                inputs[picked[k]].name,
            )
}

proof fn lemma_named(inputs: Seq<InputView>) -> (picked: Seq<int>)
    ensures
        crate::order::in_order(picked, inputs.len() as int, |i: int| is_named(inputs[i])),
        super::convert::named(inputs).len() == picked.len(),
        forall|k: int|
            0 <= k < picked.len() ==> (#[trigger] super::convert::named(inputs)[k])
                == inputs[picked[k]],
    decreases inputs.len(),
{
    if inputs.len() == 0 {
        Seq::empty()
    } else {
        let shorter = inputs.drop_last();
        let n = shorter.len() as int;
        let before = lemma_named(shorter);
        let fewer = |i: int| is_named(shorter[i]);
        let keep = |i: int| is_named(inputs[i]);
        assert forall|i: int| 0 <= i < n implies #[trigger] fewer(i) == keep(i) by {
            assert(shorter[i] == inputs[i]);
        }
        crate::order::lemma_one_more(before, n, fewer, keep);
        assert(inputs.last() == inputs[n]);
        let earlier = super::convert::named(shorter);
        let all = super::convert::named(inputs);
        let picked = if keep(n) {
            before.push(n)
        } else {
            before
        };
        assert forall|k: int| 0 <= k < picked.len() implies (#[trigger] all[k])
            == inputs[picked[k]] by {
            if k < before.len() {
                assert(all[k] == earlier[k]);
                assert(earlier[k] == shorter[before[k]]);
                assert(0 <= before[k] < n);
            }
        }
        picked
    }
}

proof fn lemma_required(inputs: Seq<InputView>) -> (picked: Seq<int>)
    ensures
        crate::order::in_order(
            picked,
            inputs.len() as int,
            |i: int| is_named(inputs[i]) && inputs[i].is_required,
        ),
        super::convert::required(super::convert::named(inputs)).len() == picked.len(),
        forall|k: int|
            0 <= k < picked.len() ==> (#[trigger] super::convert::required(
                super::convert::named(inputs),
            )[k]) == JsonView::Text(inputs[picked[k]].name),
    decreases inputs.len(),
{
    if inputs.len() == 0 {
        assert(super::convert::named(inputs).len() == 0);
        Seq::empty()
    } else {
        let shorter = inputs.drop_last();
        let n = shorter.len() as int;
        let before = lemma_required(shorter);
        let fewer = |i: int| is_named(shorter[i]) && shorter[i].is_required;
        let keep = |i: int| is_named(inputs[i]) && inputs[i].is_required;
        assert forall|i: int| 0 <= i < n implies #[trigger] fewer(i) == keep(i) by {
            assert(shorter[i] == inputs[i]);
        }
        crate::order::lemma_one_more(before, n, fewer, keep);
        assert(inputs.last() == inputs[n]);
        let known = super::convert::named(inputs);
        let earlier = super::convert::required(super::convert::named(shorter));
        let all = super::convert::required(known);
        if is_named(inputs[n]) {
            assert(known.drop_last() =~= super::convert::named(shorter));
            assert(known.last() == inputs[n]);
        }
        let picked = if keep(n) {
            before.push(n)
        } else {
            before
        };
        assert forall|k: int| 0 <= k < picked.len() implies (#[trigger] all[k])
            == JsonView::Text(inputs[picked[k]].name) by {
            if k < before.len() {
                assert(all[k] == earlier[k]);
                assert(0 <= before[k] < n);
                assert(shorter[before[k]] == inputs[before[k]]);
            }
        }
        picked
    }
}

proof fn lemma_describes(input: InputView)
    ensures
        describes(super::convert::property(input), input),
{
    reveal_strlit("type");
    reveal_strlit("description");
    reveal_strlit("x-secret");
    assert("type"@.len() == 4 && "description"@.len() == 11 && "x-secret"@.len() == 8);
    match super::convert::property(input) {
        JsonView::Object(members) => {
            crate::json::lemma_member_at(members, "type"@);
            crate::json::lemma_member_at(members, "description"@);
            crate::json::lemma_member_at(members, "x-secret"@);
            assert(members[0] == ("type"@, JsonView::Text("string"@)));
            if input.description is Some {
                assert(members[1] == ("description"@, JsonView::Text(input.description->Some_0)));
                if input.is_secret {
                    assert(members[2] == ("x-secret"@, JsonView::Bool(true)));
                }
            } else if input.is_secret {
                assert(members[1] == ("x-secret"@, JsonView::Bool(true)));
            }
        },
        _ => {},
    }
}

/// The schema made of declared inputs declares exactly those that have a name,
/// as they describe themselves, and requires exactly those that are required,
/// all of them in the order declared.
pub proof fn a_schema_declares_its_inputs(inputs: Seq<InputView>)
    ensures
        declares(super::convert::schema_of(inputs), inputs),
{
    let known = super::convert::named(inputs);
    let picked = lemma_named(inputs);
    let needed = lemma_required(inputs);
    let keep = |i: int| is_named(inputs[i]);
    if known.len() == 0 {
        assert forall|i: int| 0 <= i < inputs.len() implies !is_named(#[trigger] inputs[i]) by {
            if is_named(inputs[i]) {
                assert(keep(i));
                assert(picked.contains(i));
            }
        }
    } else {
        assert(is_named(inputs[picked[0]])) by {
            assert(keep(picked[0]));
        }
        reveal_strlit("type");
        reveal_strlit("properties");
        reveal_strlit("required");
        assert("type"@.len() == 4 && "properties"@.len() == 10 && "required"@.len() == 8);
        match super::convert::schema_of(inputs) {
            Some(JsonView::Object(members)) => {
                crate::json::lemma_member_at(members, "type"@);
                crate::json::lemma_member_at(members, "properties"@);
                crate::json::lemma_member_at(members, "required"@);
                assert(members[0].0 == "type"@);
                assert(members[1].0 == "properties"@);
                assert(members[2].0 == "required"@);
                match (members[1].1, members[2].1) {
                    (JsonView::Object(properties), JsonView::Array(names)) => {
                        assert forall|k: int| 0 <= k < picked.len() implies (
                        #[trigger] properties[k]).0 == inputs[picked[k]].name && describes(
                            properties[k].1,
                            inputs[picked[k]],
                        ) by {
                            lemma_describes(known[k]);
                        }
                        assert(lists_properties(properties, inputs));
                        assert(lists_required(names, inputs));
                    },
                    _ => {},
                }
            },
            _ => {},
        }
    }
}

/// The connection of a server's detail at this place.
pub open spec fn connection_at(detail: RegistryServerDetail, at: int) -> super::convert::ConnectionView {
    super::convert::connection_said(detail.connections@[at])
}

/// Each hosted endpoint of a server stands in its detail, in order and ahead of
/// the packages: as a published hosted connection, with its own address, no
/// launch, and a schema that declares its headers.
pub proof fn a_hosted_endpoint_becomes_its_connection(
    server: ServerView,
    detail: RegistryServerDetail,
    at: int,
)
    requires
        super::convert::detail_of(server, detail),
        0 <= at < server.remotes.len(),
    ensures
        at < detail.connections@.len(),
        detail.connections@[at].kind@ == "http"@,
        detail.connections@[at].published,
        crate::text::opt_text(detail.connections@[at].deployment_url) == server.remotes[at].url,
        detail.connections@[at].example_config is None,
        declares(
            super::types::opt_json(detail.connections@[at].config_schema),
            server.remotes[at].headers,
        ),
{
    let all = super::convert::connections_said(detail.connections@);
    assert(all.len() == server.remotes.len() + server.packages.len());
    assert(all[at] == connection_at(detail, at));
    assert(all[at] == super::convert::remote_connection(server.remotes[at]));
    a_schema_declares_its_inputs(server.remotes[at].headers);
}

/// Each package of a server stands in its detail, in order and behind the
/// hosted endpoints: as a published package without an address, whose schema
/// declares its variables, or is the registry's own where none has a name.
pub proof fn a_package_becomes_its_connection(
    server: ServerView,
    detail: RegistryServerDetail,
    at: int,
)
    requires
        super::convert::detail_of(server, detail),
        0 <= at < server.packages.len(),
    ensures
        detail.connections@.len() == server.remotes.len() + server.packages.len(),
        ({
            let package = server.packages[at];
            let connection = detail.connections@[server.remotes.len() + at];
            let schema = super::types::opt_json(connection.config_schema);
            &&& connection.kind@ == "stdio"@
            &&& connection.published
            &&& connection.deployment_url is None
            &&& if exists|i: int|
                0 <= i < package.environment_variables.len() && is_named(
                    #[trigger] package.environment_variables[i],
                ) {
                declares(schema, package.environment_variables)
            } else {
                schema == package.config_schema
            }
        }),
{
    let all = super::convert::connections_said(detail.connections@);
    let place = server.remotes.len() + at;
    let package = server.packages[at];
    assert(all.len() == server.remotes.len() + server.packages.len());
    assert(all[place] == connection_at(detail, place));
    assert(all[place] == super::convert::package_connection(package));
    a_schema_declares_its_inputs(package.environment_variables);
}

/// A package is launched as it declares. Its launcher is the one it asks for,
/// or `uvx` for a Python package, or `npx`. Where it declares arguments, they
/// are passed first, each in its place, and its name comes last. Where it
/// declares none, its name is passed alone, but for the flag that keeps `npx`
/// from asking.
pub proof fn a_package_is_launched_with_its_own_arguments(
    server: ServerView,
    detail: RegistryServerDetail,
    at: int,
)
    requires
        super::convert::detail_of(server, detail),
        0 <= at < server.packages.len(),
    ensures
        ({
            let package = server.packages[at];
            let own = package.runtime_arguments;
            let connection = detail.connections@[server.remotes.len() + at];
            connection.example_config matches Some(example) && ({
                let args = crate::registry::ops::install::example_args(example@);
                let command = crate::registry::ops::install::example_command(example@);
                &&& match package.runtime_hint {
                    Some(hint) => !crate::text::blank(hint) ==> command == Some(hint),
                    None => true,
                }
                &&& (package.runtime_hint matches Some(hint) ==> crate::text::blank(hint))
                    ==> command == Some(
                    if package.registry_type == "pypi"@ {
                        "uvx"@
                    } else {
                        "npx"@
                    },
                )
                &&& own.len() > 0 ==> {
                    &&& args.len() == own.len() + 1
                    &&& forall|i: int| 0 <= i < own.len() ==> (#[trigger] args[i]) == own[i]
                    &&& args[own.len() as int] == package.identifier
                }
                &&& own.len() == 0 ==> if command == Some("npx"@) {
                    args == seq!["-y"@, package.identifier]
                } else {
                    args == seq![package.identifier]
                }
            })
        }),
{
    let all = super::convert::connections_said(detail.connections@);
    let place = server.remotes.len() + at;
    let package = server.packages[at];
    assert(all.len() == server.remotes.len() + server.packages.len());
    assert(all[place] == connection_at(detail, place));
    assert(all[place] == super::convert::package_connection(package));
    super::convert::a_package_is_launched_as_it_declares(package);
    if package.runtime_arguments.len() == 0 {
        assert(package.runtime_arguments.push(package.identifier) =~= seq![package.identifier]);
    }
}

/// The two conversions of one server agree: the row and the detail carry the
/// same names and description, and the row is deployed exactly where the detail
/// has a hosted connection. A server with packages alone is never deployed.
pub proof fn a_row_agrees_with_its_detail(
    server: ServerView,
    summary: RegistryServerSummary,
    detail: RegistryServerDetail,
)
    requires
        super::convert::summary_of(server, summary),
        super::convert::detail_of(server, detail),
    ensures
        summary.is_deployed <==> exists|i: int|
            0 <= i < detail.connections@.len() && (#[trigger] detail.connections@[i]).kind@
                == "http"@,
        summary.is_deployed <==> exists|i: int|
            0 <= i < detail.connections@.len() && crate::registry::ops::install::hosted(
                #[trigger] detail.connections@[i],
            ),
        summary.qualified_name@ == server.name,
        detail.qualified_name@ == server.name,
        summary.display_name@ == super::convert::shown_name(server),
        detail.display_name@ == super::convert::shown_name(server),
        crate::text::opt_text(summary.description) == server.description,
        crate::text::opt_text(detail.description) == server.description,
        summary.icon_url == detail.icon_url,
{
    reveal_strlit("http");
    reveal_strlit("stdio");
    reveal_strlit("http_remote");
    reveal_strlit("sse");
    assert("http"@.len() == 4 && "stdio"@.len() == 5 && "http_remote"@.len() == 11 && "sse"@.len()
        == 3);
    let all = super::convert::connections_said(detail.connections@);
    assert(all.len() == server.remotes.len() + server.packages.len());
    assert forall|i: int| 0 <= i < detail.connections@.len() implies (
    #[trigger] detail.connections@[i]).kind@ == if i < server.remotes.len() {
        "http"@
    } else {
        "stdio"@
    } by {
        assert(all[i] == connection_at(detail, i));
        if i < server.remotes.len() {
            a_hosted_endpoint_becomes_its_connection(server, detail, i);
        } else {
            a_package_becomes_its_connection(server, detail, i - server.remotes.len());
        }
    }
    if server.remotes.len() > 0 {
        assert(detail.connections@[0].kind@ == "http"@);
        assert(crate::registry::ops::install::hosted(detail.connections@[0]));
    }
}

/// A row of the official registry says where it comes from, is never badged,
/// and carries its vendor's site where one is given that is not blank.
pub proof fn a_row_says_what_is_declared(server: ServerView, summary: RegistryServerSummary)
    requires
        super::convert::summary_of(server, summary),
    ensures
        summary.source@ == "mcp_official"@,
        !summary.official,
        summary.icon_url is None,
        match (server.website_url, summary.website_url) {
            (Some(site), Some(shown)) => shown@ == site && !crate::text::blank(site),
            (Some(site), None) => crate::text::blank(site),
            (None, Some(_)) => false,
            (None, None) => true,
        },
{
}

/// A row declares a static credential exactly where a header of the server is
/// marked secret or is the authorization header, however that is written, or
/// where a variable of one of its packages is marked secret.
pub proof fn a_credential_is_declared_by_a_secret(
    server: ServerView,
    summary: RegistryServerSummary,
)
    requires
        super::convert::summary_of(server, summary),
    ensures
        match summary.auth_kind {
            Some(kind) => kind@ == "api_key"@ && ((exists|i: int, j: int|
                0 <= i < server.remotes.len() && 0 <= j < server.remotes[i].headers.len() && (
                (#[trigger] server.remotes[i].headers[j]).is_secret
                    || crate::text::lower_text(server.remotes[i].headers[j].name)
                    == "authorization"@)) || (exists|i: int, j: int|
                0 <= i < server.packages.len() && 0 <= j
                    < server.packages[i].environment_variables.len() && (
                #[trigger] server.packages[i].environment_variables[j]).is_secret)),
            None => (forall|i: int, j: int|
                0 <= i < server.remotes.len() && 0 <= j < server.remotes[i].headers.len() ==> !(
                #[trigger] server.remotes[i].headers[j]).is_secret && crate::text::lower_text(
                    server.remotes[i].headers[j].name,
                ) != "authorization"@) && (forall|i: int, j: int|
                0 <= i < server.packages.len() && 0 <= j
                    < server.packages[i].environment_variables.len() ==> !(
                #[trigger] server.packages[i].environment_variables[j]).is_secret),
        },
{
    match summary.auth_kind {
        Some(_) => {
            assert(super::convert::declares_credential(server));
            if exists|i: int, j: int|
                0 <= i < server.remotes.len() && 0 <= j < server.remotes[i].headers.len()
                    && super::convert::header_is_credential(
                    #[trigger] server.remotes[i].headers[j],
                ) {
                let (i, j) = choose|i: int, j: int|
                    0 <= i < server.remotes.len() && 0 <= j < server.remotes[i].headers.len()
                        && super::convert::header_is_credential(
                        #[trigger] server.remotes[i].headers[j],
                    );
                let header = server.remotes[i].headers[j];
                assert(header.is_secret || crate::text::lower_text(header.name)
                    == "authorization"@);
            }
        },
        None => {
            assert(!super::convert::declares_credential(server));
            assert forall|i: int, j: int|
                0 <= i < server.remotes.len() && 0 <= j
                    < server.remotes[i].headers.len() implies !(
            #[trigger] server.remotes[i].headers[j]).is_secret && crate::text::lower_text(
                server.remotes[i].headers[j].name,
            ) != "authorization"@ by {
                assert(!super::convert::header_is_credential(server.remotes[i].headers[j]));
            }
        },
    }
}

/// A declared title that is not blank is the name that is shown, as it stands.
/// Otherwise the name that is shown is what follows the last slash or dot of the
/// qualified name, character for character, a hyphen or an underscore shown as a
/// space.
pub proof fn the_shown_name_is_the_title_or_the_last_segment(server: ServerView)
    ensures
        ({
            let shown = super::convert::shown_name(server);
            match server.title {
                Some(title) => !crate::text::blank(title) ==> shown == title,
                None => true,
            }
        }),
        super::convert::given(server.title) is None <==> (server.title is None
            || crate::text::blank(server.title->Some_0)),
        super::convert::given(server.title) is None ==> ({
            let name = server.name;
            let shown = super::convert::shown_name(server);
            let from = name.len() - shown.len();
            &&& 0 <= from
            &&& from == 0 || name[from - 1] == '/' || name[from - 1] == '.'
            &&& forall|i: int|
                from <= i < name.len() ==> (#[trigger] name[i]) != '/' && name[i] != '.'
            &&& forall|i: int|
                0 <= i < shown.len() ==> (#[trigger] shown[i]) == if name[from + i] == '-'
                    || name[from + i] == '_' {
                    ' '
                } else {
                    name[from + i]
                }
        }),
{
    lemma_last_segment(server.name);
    let name = server.name;
    let segment = super::convert::last_segment(name);
    let from = name.len() - segment.len();
    let shown = super::convert::spaced(segment);
    assert(shown.len() == segment.len());
    assert forall|i: int| from <= i < name.len() implies (#[trigger] name[i]) != '/' && name[i]
        != '.' by {
        assert(segment[i - from] == name[i]);
    }
    assert forall|i: int| 0 <= i < shown.len() implies (#[trigger] shown[i]) == if name[from + i]
        == '-' || name[from + i] == '_' {
        ' '
    } else {
        name[from + i]
    } by {
        assert(segment[i] == name[from + i]);
        assert(shown[i] == super::convert::spaced_char(segment[i]));
    }
}

proof fn lemma_last_segment(name: Seq<char>)
    ensures
        ({
            let segment = super::convert::last_segment(name);
            let from = name.len() - segment.len();
            &&& 0 <= from
            &&& from == 0 || name[from - 1] == '/' || name[from - 1] == '.'
            &&& forall|i: int|
                0 <= i < segment.len() ==> (#[trigger] segment[i]) == name[from + i] && segment[i]
                    != '/' && segment[i] != '.'
        }),
    decreases name.len(),
{
    if name.len() > 0 && name.last() != '/' && name.last() != '.' {
        lemma_last_segment(name.drop_last());
    }
}

/// Whether a row is the first of its name that is neither deprecated nor without
/// a way to connect.
pub open spec fn first_of_its_name(rows: Seq<RowView>, at: int) -> bool {
    &&& listable(rows[at])
    &&& forall|i: int|
        0 <= i < at && listable(#[trigger] rows[i]) ==> rows[i].server.name
            != rows[at].server.name
}

/// Whether a row is not deprecated and offers a hosted endpoint or a package.
pub open spec fn listable(row: RowView) -> bool {
    &&& row.status matches Some(status) ==> status != "deprecated"@
    &&& row.server.remotes.len() > 0 || row.server.packages.len() > 0
}

/// A page becomes its rows in the order sent: of each name the first row that is
/// neither deprecated nor without a way to connect, and no other.
pub proof fn a_page_lists_its_rows_in_order(
    rows: Seq<RowView>,
    summaries: Seq<RegistryServerSummary>,
)
    requires
        super::convert::summaries_of(rows, summaries),
    ensures
        exists|picked: Seq<int>|
            #![trigger picked.len()]
            crate::order::in_order(
                picked,
                rows.len() as int,
                |i: int| first_of_its_name(rows, i),
            ) && summaries.len() == picked.len() && forall|k: int|
                0 <= k < picked.len() ==> (#[trigger] summaries[k]).qualified_name@
                    == rows[picked[k]].server.name && super::convert::summary_of(
                    rows[picked[k]].server,
                    summaries[k],
                ),
{
    let picked = lemma_listed(rows);
    let servers = super::convert::listed(rows);
    assert forall|k: int| 0 <= k < picked.len() implies (#[trigger] summaries[k]).qualified_name@
        == rows[picked[k]].server.name && super::convert::summary_of(
        rows[picked[k]].server,
        summaries[k],
    ) by {
        assert(servers[k] == rows[picked[k]].server);
    }
    assert(summaries.len() == picked.len());
}

proof fn lemma_listed(rows: Seq<RowView>) -> (picked: Seq<int>)
    ensures
        crate::order::in_order(
            picked,
            rows.len() as int,
            |i: int| first_of_its_name(rows, i),
        ),
        super::convert::listed(rows).len() == picked.len(),
        forall|k: int|
            0 <= k < picked.len() ==> (#[trigger] super::convert::listed(rows)[k])
                == rows[picked[k]].server,
    decreases rows.len(),
{
    if rows.len() == 0 {
        Seq::empty()
    } else {
        let shorter = rows.drop_last();
        let n = shorter.len() as int;
        let before = lemma_listed(shorter);
        let fewer = |i: int| first_of_its_name(shorter, i);
        let keep = |i: int| first_of_its_name(rows, i);
        assert forall|i: int| 0 <= i < n implies #[trigger] fewer(i) == keep(i) by {
            assert(shorter[i] == rows[i]);
            assert forall|j: int| 0 <= j < i implies shorter[j] == rows[j] by {}
            if keep(i) {
                assert forall|j: int|
                    0 <= j < i && listable(#[trigger] shorter[j]) implies shorter[j].server.name
                    != shorter[i].server.name by {
                    assert(rows[j] == shorter[j]);
                }
            }
            if fewer(i) {
                assert forall|j: int|
                    0 <= j < i && listable(#[trigger] rows[j]) implies rows[j].server.name
                    != rows[i].server.name by {
                    assert(rows[j] == shorter[j]);
                }
            }
        }
        crate::order::lemma_one_more(before, n, fewer, keep);
        assert(rows.last() == rows[n]);
        let earlier = super::convert::listed(shorter);
        let all = super::convert::listed(rows);
        super::convert::a_listing_is_complete_and_without_repeats(shorter);
        let name = rows[n].server.name;
        assert(super::convert::names_server(earlier, name) <==> exists|j: int|
            0 <= j < n && listable(#[trigger] rows[j]) && rows[j].server.name == name) by {
            if super::convert::names_server(earlier, name) {
                let i = choose|i: int| 0 <= i < earlier.len() && (#[trigger] earlier[i]).name == name;
                let j = before[i];
                assert(earlier[i] == shorter[j].server);
                assert(fewer(j));
                assert(shorter[j] == rows[j]);
                assert(listable(rows[j]) && rows[j].server.name == name);
            }
            if exists|j: int|
                0 <= j < n && listable(#[trigger] rows[j]) && rows[j].server.name == name {
                let j = choose|j: int|
                    0 <= j < n && listable(#[trigger] rows[j]) && rows[j].server.name == name;
                assert(shorter[j] == rows[j]);
                assert(super::convert::worth_listing(shorter[j]));
            }
        }
        assert(super::convert::worth_listing(rows[n]) == listable(rows[n]));
        assert(keep(n) == (listable(rows[n]) && !super::convert::names_server(earlier, name)));
        let picked = if keep(n) {
            before.push(n)
        } else {
            before
        };
        assert forall|k: int| 0 <= k < picked.len() implies (#[trigger] all[k])
            == rows[picked[k]].server by {
            if k < before.len() {
                assert(all[k] == earlier[k]);
                assert(0 <= before[k] < n);
                assert(shorter[before[k]] == rows[before[k]]);
            }
        }
        picked
    }
}

/// Whether an input is read as it was sent: each field from the member of its
/// own name, a flag holding only where it says `true`.
pub open spec fn input_as_sent(input: InputView, document: JsonView) -> bool {
    &&& match crate::json::member(document, "name"@) {
        Some(JsonView::Text(name)) => input.name == name,
        _ => input.name.len() == 0,
    }
    &&& match crate::json::member(document, "description"@) {
        Some(JsonView::Text(text)) => input.description == Some(text),
        _ => input.description is None,
    }
    &&& input.is_secret <==> crate::json::member(document, "isSecret"@) == Some(
        JsonView::Bool(true),
    )
    &&& input.is_required <==> crate::json::member(document, "isRequired"@) == Some(
        JsonView::Bool(true),
    )
}

/// Whether inputs are read as they were sent: every one, each in its place.
pub open spec fn inputs_as_sent(
    inputs: Seq<InputView>,
    document: JsonView,
    member: Seq<char>,
) -> bool {
    match crate::json::member(document, member) {
        Some(JsonView::Array(items)) => inputs.len() == items.len() && forall|i: int|
            0 <= i < items.len() ==> input_as_sent(#[trigger] inputs[i], items[i]),
        _ => inputs.len() == 0,
    }
}

proof fn lemma_inputs_as_sent(document: JsonView, member: Seq<char>)
    ensures
        inputs_as_sent(
            super::types::inputs_read(crate::json::list_member(document, member)),
            document,
            member,
        ),
{
    let items = crate::json::list_member(document, member);
    let inputs = super::types::inputs_read(items);
    assert forall|i: int| 0 <= i < items.len() implies input_as_sent(
        #[trigger] inputs[i],
        items[i],
    ) by {
        assert(inputs[i] == super::types::input_read(items[i]));
    }
}

/// Whether a text is read as it was sent, where it was sent as a text.
pub open spec fn text_as_sent(
    text: Option<Seq<char>>,
    document: JsonView,
    member: Seq<char>,
) -> bool {
    match crate::json::member(document, member) {
        Some(JsonView::Text(sent)) => text == Some(sent),
        _ => text is None,
    }
}

/// A hosted endpoint is read as it was sent: its address, and its headers, each
/// in its place.
pub proof fn a_hosted_endpoint_is_read_as_sent(document: JsonView)
    ensures
        ({
            let remote = super::types::remote_read(document);
            &&& text_as_sent(remote.url, document, "url"@)
            &&& inputs_as_sent(remote.headers, document, "headers"@)
        }),
{
    lemma_inputs_as_sent(document, "headers"@);
}

/// Whether launch arguments are read as they were sent: the value of each that
/// has one, in order, and of no other.
pub open spec fn arguments_as_sent(arguments: Seq<Seq<char>>, items: Seq<JsonView>) -> bool {
    exists|picked: Seq<int>|
        #![trigger picked.len()]
        crate::order::in_order(
            picked,
            items.len() as int,
            |i: int| crate::json::member(items[i], "value"@) matches Some(JsonView::Text(_)),
        ) && arguments.len() == picked.len() && forall|k: int|
            0 <= k < picked.len() ==> crate::json::member(items[picked[k]], "value"@) == Some(
                JsonView::Text(#[trigger] arguments[k]),
            )
}

proof fn lemma_arguments(items: Seq<JsonView>) -> (picked: Seq<int>)
    ensures
        crate::order::in_order(
            picked,
            items.len() as int,
            |i: int| crate::json::member(items[i], "value"@) matches Some(JsonView::Text(_)),
        ),
        super::types::arguments_read(items).len() == picked.len(),
        forall|k: int|
            0 <= k < picked.len() ==> crate::json::member(items[picked[k]], "value"@) == Some(
                JsonView::Text(#[trigger] super::types::arguments_read(items)[k]),
            ),
    decreases items.len(),
{
    if items.len() == 0 {
        Seq::empty()
    } else {
        let shorter = items.drop_last();
        let n = shorter.len() as int;
        let before = lemma_arguments(shorter);
        let fewer = |i: int|
            crate::json::member(shorter[i], "value"@) matches Some(JsonView::Text(_));
        let keep = |i: int|
            crate::json::member(items[i], "value"@) matches Some(JsonView::Text(_));
        assert forall|i: int| 0 <= i < n implies #[trigger] fewer(i) == keep(i) by {
            assert(shorter[i] == items[i]);
        }
        crate::order::lemma_one_more(before, n, fewer, keep);
        assert(items.last() == items[n]);
        let earlier = super::types::arguments_read(shorter);
        let all = super::types::arguments_read(items);
        let picked = if keep(n) {
            before.push(n)
        } else {
            before
        };
        assert forall|k: int| 0 <= k < picked.len() implies crate::json::member(
            items[picked[k]],
            "value"@,
        ) == Some(JsonView::Text(#[trigger] all[k])) by {
            if k < before.len() {
                assert(all[k] == earlier[k]);
                assert(0 <= before[k] < n);
                assert(shorter[before[k]] == items[before[k]]);
            }
        }
        picked
    }
}

/// A package is read as it was sent: where it is published and under which name,
/// the launcher it asks for, its arguments in order, its variables each in its
/// place, and the registry's own schema.
pub proof fn a_package_is_read_as_sent(document: JsonView)
    ensures
        ({
            let package = super::types::package_read(document);
            &&& match crate::json::member(document, "registryType"@) {
                Some(JsonView::Text(kind)) => package.registry_type == kind,
                _ => package.registry_type.len() == 0,
            }
            &&& match crate::json::member(document, "identifier"@) {
                Some(JsonView::Text(name)) => package.identifier == name,
                _ => package.identifier.len() == 0,
            }
            &&& text_as_sent(package.runtime_hint, document, "runtimeHint"@)
            &&& match crate::json::member(document, "runtimeArguments"@) {
                Some(JsonView::Array(items)) => arguments_as_sent(
                    package.runtime_arguments,
                    items,
                ),
                _ => package.runtime_arguments.len() == 0,
            }
            &&& inputs_as_sent(package.environment_variables, document, "environmentVariables"@)
            &&& package.config_schema == crate::json::member(document, "configSchema"@)
        }),
{
    lemma_inputs_as_sent(document, "environmentVariables"@);
    let items = crate::json::list_member(document, "runtimeArguments"@);
    let picked = lemma_arguments(items);
    assert(picked.len() == super::types::arguments_read(items).len());
}

/// A server is read as it was sent: its name, its title, its description, its
/// vendor's site, and its endpoints and packages, each in its place.
pub proof fn a_server_is_read_as_sent(document: JsonView)
    ensures
        ({
            let server = super::types::server_read(document);
            &&& match crate::json::member(document, "name"@) {
                Some(JsonView::Text(name)) => server.name == name,
                _ => server.name.len() == 0,
            }
            &&& text_as_sent(server.title, document, "title"@)
            &&& text_as_sent(server.description, document, "description"@)
            &&& text_as_sent(server.website_url, document, "websiteUrl"@)
            &&& match crate::json::member(document, "remotes"@) {
                Some(JsonView::Array(items)) => server.remotes.len() == items.len() && forall|
                    i: int,
                |
                    0 <= i < items.len() ==> (#[trigger] server.remotes[i])
                        == super::types::remote_read(items[i]),
                _ => server.remotes.len() == 0,
            }
            &&& match crate::json::member(document, "packages"@) {
                Some(JsonView::Array(items)) => server.packages.len() == items.len() && forall|
                    i: int,
                |
                    0 <= i < items.len() ==> (#[trigger] server.packages[i])
                        == super::types::package_read(items[i]),
                _ => server.packages.len() == 0,
            }
        }),
{
}

/// A row is read from inside its envelope, and its status from the registry's
/// own metadata; a page's cursor is read from its metadata.
pub proof fn a_row_is_read_as_sent(document: JsonView)
    ensures
        super::types::has_envelope(document) ==> (crate::json::member(document, "server"@) matches Some(
            server,
        ) && super::types::row_read(document).server == super::types::server_read(server)),
        match crate::json::member(document, "_meta"@) {
            Some(meta) => match crate::json::member(
                meta,
                "io.modelcontextprotocol.registry/official"@,
            ) {
                Some(official) => text_as_sent(
                    super::types::row_read(document).status,
                    official,
                    "status"@,
                ),
                None => super::types::row_read(document).status is None,
            },
            None => super::types::row_read(document).status is None,
        },
        match crate::json::member(document, "metadata"@) {
            Some(metadata) => text_as_sent(
                super::types::cursor_read(document),
                metadata,
                "nextCursor"@,
            ),
            None => super::types::cursor_read(document) is None,
        },
{
}

/// One more page is promised exactly where the response names where it begins,
/// and never beyond what can be counted.
pub proof fn a_page_bound_promises_one_more_page(page: u32, cursor: Option<Seq<char>>)
    ensures
        ({
            let pages = super::paging::bound(page, super::types::more_follows(cursor));
            &&& page <= pages <= page + 1
            &&& page < u32::MAX ==> (pages == page + 1 <==> cursor is Some
                && cursor->Some_0.len() > 0)
            &&& page == u32::MAX ==> pages == page
        }),
{
}

} // verus!
