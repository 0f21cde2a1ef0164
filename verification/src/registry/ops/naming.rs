//! The names that operations take.
use vstd::prelude::*;

use crate::error::Error;
use crate::registry::sources::types::SOURCE_MCP_OFFICIAL;
use crate::text::{chars_of, find, text3, text_of};

verus! {

/// The separator a source-routed name uses.
///
/// A caller installing from a catalog that is not in the default search set
/// prefixes the name with its source, so the detail lookup can be routed. The
/// prefix is addressing, not identity.
pub const SOURCE_SEPARATOR: &'static str = "::";

/// Whether an error says that `field` was left blank.
pub open spec fn blank_field(error: Error, field: Seq<char>) -> bool {
    error matches Error::UnknownServer { server } && server@ == "<blank "@ + field + ">"@
}

/// What an identifier that may not be blank comes to.
pub open spec fn required_name(
    value: Seq<char>,
    field: Seq<char>,
    r: Result<Seq<char>, Error>,
) -> bool {
    if crate::text::blank(value) {
        r matches Err(e) && blank_field(e, field)
    } else {
        r == Ok::<Seq<char>, Error>(crate::text::trimmed(value))
    }
}

/// An identifier is refused exactly where it holds nothing but white space, and
/// the refusal names the field. Otherwise it is taken as it stands, without the
/// white space around it and with everything between.
pub proof fn an_identifier_is_taken_without_its_margins(
    value: Seq<char>,
    field: Seq<char>,
    r: Result<Seq<char>, Error>,
)
    requires
        required_name(value, field, r),
    ensures
        r is Err <==> forall|i: int|
            0 <= i < value.len() ==> crate::text::white_space(#[trigger] value[i]),
        r matches Err(e) ==> (e matches Error::UnknownServer { server } && server@ == "<blank "@
            + field + ">"@),
        r matches Ok(name) ==> {
            &&& name.len() > 0
            &&& !crate::text::white_space(name[0])
            &&& !crate::text::white_space(name.last())
            &&& exists|from: int|
                #![trigger value.subrange(from, from + name.len())]
                0 <= from && from + name.len() <= value.len() && value.subrange(
                    from,
                    from + name.len(),
                ) == name && (forall|i: int|
                    0 <= i < from ==> crate::text::white_space(#[trigger] value[i])) && (forall|
                    i: int,
                |
                    from + name.len() <= i < value.len() ==> crate::text::white_space(
                        #[trigger] value[i],
                    ))
        },
{
    crate::text::blank_means_all_white_space(value);
    if !crate::text::blank(value) {
        let tail = crate::text::trimmed_start(value);
        let name = crate::text::trimmed(value);
        crate::text::lemma_trimmed_start(value);
        crate::text::lemma_trimmed_end(tail);
        let from = value.len() - tail.len();
        assert(name[0] == tail[0]);
        assert(value.subrange(from, from + name.len()) =~= name);
        assert forall|i: int| from + name.len() <= i < value.len() implies crate::text::white_space(
            #[trigger] value[i],
        ) by {
            assert(tail[i - from] == value[i]);
        }
    }
}

/// Trims an identifier and refuses a blank one.
pub fn require_non_empty<'a>(value: &'a str, field: &str) -> (r: Result<&'a str, Error>)
    ensures
        match r {
            Ok(name) => required_name(value@, field@, Ok(name@)),
            Err(e) => required_name(value@, field@, Err(e)),
        },
{
    let name = value.trim();
    if name.unicode_len() == 0 {
        return Err(Error::UnknownServer { server: text3("<blank ", field, ">") });
    }
    Ok(name)
}

/// The install that an identifier names: a blank one is refused.
pub fn named_install(server_id: &str) -> (r: Result<String, Error>)
    ensures
        if crate::text::blank(server_id@) {
            r matches Err(e) && blank_field(e, "server_id"@)
        } else {
            r matches Ok(id) && id@ == crate::text::trimmed(server_id@)
        },
{
    match require_non_empty(server_id, "server_id") {
        Err(e) => Err(e),
        Ok(id) => Ok(id.to_owned()),
    }
}

/// The source and the bare name that a possibly routed name stands for. The
/// first separator ends the source; a name without one is looked up in the
/// official catalog, which is where an unrouted name comes from.
pub open spec fn routed(name: Seq<char>) -> (Seq<char>, Seq<char>) {
    match crate::text::first_at(name, SOURCE_SEPARATOR@) {
        Some(at) => (
            name.subrange(0, at),
            name.subrange(at + SOURCE_SEPARATOR@.len(), name.len() as int),
        ),
        None => (SOURCE_MCP_OFFICIAL@, name),
    }
}

/// Splits a possibly source-routed name into its source and the bare name.
#[must_use]
pub fn split_routing_name(qualified_name: &str) -> (r: (String, String))
    ensures
        (r.0@, r.1@) == routed(qualified_name@),
{
    let name = chars_of(qualified_name);
    let separator = chars_of(SOURCE_SEPARATOR);
    proof {
        crate::text::lemma_first_at(qualified_name@, SOURCE_SEPARATOR@);
    }
    match find(&name, &separator) {
        Some(at) => {
            let after: usize = at + separator.len();
            (text_of(&name, 0, at), text_of(&name, after, name.len()))
        },
        None => (SOURCE_MCP_OFFICIAL.to_owned(), qualified_name.to_owned()),
    }
}

/// A prefix is taken off whole: `source::name` is looked up in `source`, under
/// `name`, wherever the first separator is the one that ends the source.
pub proof fn a_prefix_is_not_part_of_the_name(source: Seq<char>, name: Seq<char>)
    requires
        crate::text::first_at(source + SOURCE_SEPARATOR@, SOURCE_SEPARATOR@) == Some(
            source.len() as int,
        ),
    ensures
        routed(source + SOURCE_SEPARATOR@ + name) == (source, name),
{
    let whole = source + SOURCE_SEPARATOR@ + name;
    let mark = SOURCE_SEPARATOR@;
    let head = source + mark;
    crate::text::lemma_first_at(whole, mark);
    crate::text::lemma_first_at(head, mark);
    let at = source.len() as int;
    assert(whole.subrange(at, at + mark.len()) =~= mark);
    assert(crate::text::stands_at(whole, mark, at));
    match crate::text::first_at(whole, mark) {
        Some(found) => {
            if found < at {
                assert(head.subrange(found, found + mark.len()) =~= whole.subrange(
                    found,
                    found + mark.len(),
                ));
                assert(crate::text::stands_at(head, mark, found));
            }
            assert(found == at);
        },
        None => {},
    }
    assert(whole.subrange(0, at) =~= source);
    assert(whole.subrange(at + mark.len(), whole.len() as int) =~= name);
}

/// No identifier of a source holds a colon.
proof fn lemma_no_colon(source: crate::registry::sources::types::RegistrySource)
    ensures
        forall|i: int|
            0 <= i < crate::registry::sources::types::identifier(source).len() ==> (
            #[trigger] crate::registry::sources::types::identifier(source)[i]) != ':',
{
    match source {
        crate::registry::sources::types::RegistrySource::McpOfficial => {
            reveal_strlit("mcp_official");
        },
        crate::registry::sources::types::RegistrySource::Smithery => {
            reveal_strlit("smithery");
        },
    }
}

/// After a prefix without a colon, the first separator is the one that follows
/// it.
proof fn lemma_first_mark(prefix: Seq<char>)
    requires
        forall|i: int| 0 <= i < prefix.len() ==> (#[trigger] prefix[i]) != ':',
    ensures
        crate::text::first_at(prefix + SOURCE_SEPARATOR@, SOURCE_SEPARATOR@) == Some(
            prefix.len() as int,
        ),
    decreases prefix.len(),
{
    let mark = SOURCE_SEPARATOR@;
    let head = prefix + mark;
    if prefix.len() == 0 {
        assert(head =~= mark);
        assert(mark.is_prefix_of(head));
    } else {
        assert(!mark.is_prefix_of(head)) by {
            reveal_strlit("::");
            assert(mark[0] == ':');
            assert(head[0] == prefix[0]);
            if mark.is_prefix_of(head) {
                assert(head.subrange(0, mark.len() as int)[0] == mark[0]);
            }
        }
        let rest = prefix.drop_first();
        assert forall|i: int| 0 <= i < rest.len() implies (#[trigger] rest[i]) != ':' by {
            assert(rest[i] == prefix[i + 1]);
        }
        lemma_first_mark(rest);
        assert(head.drop_first() =~= rest + mark);
    }
}

/// A prefix is addressing, not identity: a name that is routed to a source and
/// the same name without a prefix stand for the same install.
pub proof fn a_routed_and_a_plain_name_are_one_install(
    source: crate::registry::sources::types::RegistrySource,
    name: Seq<char>,
)
    requires
        crate::text::first_at(name, SOURCE_SEPARATOR@) is None,
    ensures
        ({
            let prefix = crate::registry::sources::types::identifier(source);
            &&& routed(prefix + SOURCE_SEPARATOR@ + name) == (prefix, name)
            &&& routed(name).1 == name
        }),
{
    let prefix = crate::registry::sources::types::identifier(source);
    lemma_no_colon(source);
    lemma_first_mark(prefix);
    a_prefix_is_not_part_of_the_name(prefix, name);
}

/// A duration since the epoch as whole milliseconds that a record can hold:
/// zero where the clock stands before the epoch or past what fits.
pub open spec fn record_time(elapsed: Option<u128>) -> i64 {
    match elapsed {
        Some(millis) => if millis <= i64::MAX {
            millis as i64
        } else {
            0
        },
        None => 0,
    }
}

/// The milliseconds of a duration since the epoch, as a record holds them.
#[must_use]
pub fn epoch_ms(elapsed: Option<u128>) -> (r: i64)
    ensures
        r == record_time(elapsed),
{
    match elapsed {
        Some(millis) => if millis <= i64::MAX as u128 {
            millis as i64
        } else {
            0
        },
        None => 0,
    }
}

/// The current time in Unix epoch milliseconds.
#[must_use]
pub fn now_ms() -> (r: i64)
    ensures
        r >= 0,
{
    let now = std::time::SystemTime::now();
    match now.duration_since(crate::outside::unix_epoch()) {
        Ok(elapsed) => epoch_ms(Some(elapsed.as_millis())),
        Err(_) => epoch_ms(None),
    }
}

/// A time is recorded as it was read, to the millisecond, wherever a record can
/// hold it, and as zero where it cannot or there is none.
pub proof fn a_time_is_recorded_as_read(millis: u128)
    ensures
        millis <= i64::MAX ==> record_time(Some(millis)) == millis,
        millis > i64::MAX ==> record_time(Some(millis)) == 0,
        record_time(None) == 0,
{
}

} // verus!
