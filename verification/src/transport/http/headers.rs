//! What a response's status and headers say.
use vstd::prelude::*;

use crate::endpoint::redact_endpoint;
use crate::error::{Error, McpAuthChallenge};
use crate::text::{chars_of, is_white_space, lowered, same_text, text_of};

verus! {

/// Whether a text ends inside a quoted string.
pub open spec fn quote_open(s: Seq<char>) -> bool
    decreases s.len(),
{
    if s.len() == 0 {
        false
    } else if s.last() == '"' {
        !quote_open(s.drop_last())
    } else {
        quote_open(s.drop_last())
    }
}

/// Whether a text ends in a comma that separates attributes: one that stands
/// in no quoted string.
pub open spec fn ends_part(s: Seq<char>) -> bool {
    s.len() > 0 && s.last() == ',' && !quote_open(s.drop_last())
}

/// What stands behind the last separating comma.
pub open spec fn last_part(s: Seq<char>) -> Seq<char>
    decreases s.len(),
{
    if s.len() == 0 || ends_part(s) {
        Seq::empty()
    } else {
        last_part(s.drop_last()).push(s.last())
    }
}

/// What stands before the last separating comma, part by part.
pub open spec fn earlier_parts(s: Seq<char>) -> Seq<Seq<char>>
    decreases s.len(),
{
    if s.len() == 0 {
        Seq::empty()
    } else if ends_part(s) {
        earlier_parts(s.drop_last()).push(last_part(s.drop_last()))
    } else {
        earlier_parts(s.drop_last())
    }
}

/// The attributes of a challenge, as they are written.
pub open spec fn parts(s: Seq<char>) -> Seq<Seq<char>> {
    earlier_parts(s).push(last_part(s))
}

/// Where an attribute's first equals sign stands; its length where it has
/// none.
pub open spec fn equals_at(part: Seq<char>) -> int
    decreases part.len(),
{
    if part.len() == 0 || part[0] == '=' {
        0
    } else {
        1 + equals_at(part.drop_first())
    }
}

/// What a value says without the quotes that may stand around it.
pub open spec fn unquoted(value: Seq<char>) -> Seq<char> {
    if value.len() >= 2 && value[0] == '"' && value.last() == '"' {
        value.subrange(1, value.len() - 1)
    } else {
        value
    }
}

/// Whether an attribute has this name, in any case.
pub open spec fn part_is(part: Seq<char>, name: Seq<char>) -> bool {
    equals_at(part) < part.len() && crate::text::lower_text(
        crate::text::trimmed(part.subrange(0, equals_at(part))),
    ) == name
}

/// The value of an attribute.
pub open spec fn part_value(part: Seq<char>) -> Seq<char> {
    unquoted(crate::text::trimmed(part.subrange(equals_at(part) + 1, part.len() as int)))
}

/// The value of the first attribute of this name.
pub open spec fn attribute(parts: Seq<Seq<char>>, name: Seq<char>) -> Option<Seq<char>>
    decreases parts.len(),
{
    if parts.len() == 0 {
        None
    } else if part_is(parts[0], name) {
        Some(part_value(parts[0]))
    } else {
        attribute(parts.drop_first(), name)
    }
}

/// How long the scheme at the start of a challenge is: it ends before the
/// first white space.
pub open spec fn scheme_len(s: Seq<char>) -> int
    decreases s.len(),
{
    if s.len() == 0 || crate::text::white_space(s[0]) {
        0
    } else {
        1 + scheme_len(s.drop_first())
    }
}

/// The attributes behind a challenge's scheme.
pub open spec fn challenge_parts(s: Seq<char>) -> Seq<Seq<char>> {
    parts(s.subrange(scheme_len(s), s.len() as int))
}

/// How a header is read.
pub open spec fn challenge_read(header: Option<Seq<char>>, r: Option<McpAuthChallenge>) -> bool {
    match header {
        None => r is None,
        Some(text) => if crate::text::blank(text) {
            r is None
        } else {
            let s = crate::text::trimmed(text);
            r matches Some(challenge) && challenge.scheme@ == s.subrange(0, scheme_len(s))
                && crate::text::opt_text(challenge.realm) == attribute(
                challenge_parts(s),
                "realm"@,
            ) && crate::text::opt_text(challenge.resource_metadata) == attribute(
                challenge_parts(s),
                "resource_metadata"@,
            )
        },
    }
}

/// The parts as texts.
spec fn parts_said(done: Seq<Vec<char>>) -> Seq<Seq<char>> {
    done.map_values(|part: Vec<char>| part@)
}

/// Splits attributes at the commas that separate them.
fn split_parts(chars: &Vec<char>) -> (r: Vec<Vec<char>>)
    ensures
        parts_said(r@) == parts(chars@),
{
    let mut done: Vec<Vec<char>> = Vec::new();
    let mut open: Vec<char> = Vec::new();
    let mut quoted = false;
    let mut at: usize = 0;
    proof {
        assert(chars@.take(0) =~= Seq::empty());
        assert(parts_said(done@) =~= Seq::<Seq<char>>::empty());
    }
    while at < chars.len()
        invariant
            at <= chars@.len(),
            quoted == quote_open(chars@.take(at as int)),
            open@ == last_part(chars@.take(at as int)),
            parts_said(done@) == earlier_parts(chars@.take(at as int)),
        decreases chars@.len() - at,
    {
        let c = chars[at];
        let ghost read = chars@.take(at + 1);
        proof {
            assert(read.last() == c);
            assert(read.drop_last() =~= chars@.take(at as int));
        }
        if c == ',' && !quoted {
            let ghost before = done@;
            let ghost part = open@;
            done.push(open);
            proof {
                assert(parts_said(done@) =~= parts_said(before).push(part));
            }
            open = Vec::new();
            proof {
                assert(open@ =~= last_part(read));
            }
        } else {
            if c == '"' {
                quoted = !quoted;
            }
            open.push(c);
        }
        at += 1;
    }
    proof {
        assert(chars@.take(at as int) =~= chars@);
    }
    let ghost before = done@;
    let ghost part = open@;
    done.push(open);
    proof {
        assert(parts_said(done@) =~= parts_said(before).push(part));
    }
    done
}

/// Where an attribute's first equals sign stands.
fn find_equals(part: &Vec<char>) -> (r: usize)
    ensures
        r == equals_at(part@),
        r <= part@.len(),
{
    let mut at: usize = 0;
    proof {
        assert(part@.subrange(0, part@.len() as int) =~= part@);
    }
    while at < part.len() && part[at] != '='
        invariant
            at <= part@.len(),
            equals_at(part@) == at + equals_at(part@.subrange(at as int, part@.len() as int)),
        decreases part@.len() - at,
    {
        proof {
            let rest = part@.subrange(at as int, part@.len() as int);
            assert(rest[0] == part@[at as int]);
            assert(rest.drop_first() =~= part@.subrange(at + 1, part@.len() as int));
        }
        at += 1;
    }
    proof {
        let rest = part@.subrange(at as int, part@.len() as int);
        if at < part@.len() {
            assert(rest[0] == part@[at as int]);
        }
    }
    at
}

/// The value of the first attribute of this name.
fn find_attribute(found: &Vec<Vec<char>>, name: &str) -> (r: Option<String>)
    ensures
        crate::text::opt_text(r) == attribute(parts_said(found@), name@),
{
    let ghost all = parts_said(found@);
    let mut at: usize = 0;
    proof {
        assert(all.subrange(0, all.len() as int) =~= all);
    }
    while at < found.len()
        invariant
            all == parts_said(found@),
            at <= found@.len(),
            attribute(all, name@) == attribute(
                all.subrange(at as int, all.len() as int),
                name@,
            ),
        decreases found@.len() - at,
    {
        let part = &found[at];
        let ghost rest = all.subrange(at as int, all.len() as int);
        proof {
            assert(rest[0] == part@);
            assert(rest.drop_first() =~= all.subrange(at + 1, all.len() as int));
        }
        let mark: usize = find_equals(part);
        if mark < part.len() {
            let left = text_of(part, 0, mark);
            if same_text(lowered(left.as_str().trim()).as_str(), name) {
                let right = text_of(part, mark + 1, part.len());
                let value = chars_of(right.as_str().trim());
                let size: usize = value.len();
                let text = if size >= 2 && value[0] == '"' && value[size - 1] == '"' {
                    text_of(&value, 1, size - 1)
                } else {
                    text_of(&value, 0, size)
                };
                proof {
                    assert(value@.subrange(0, size as int) =~= value@);
                    assert(text@ == part_value(part@));
                }
                return Some(text);
            }
        }
        at += 1;
    }
    proof {
        assert(all.subrange(at as int, all.len() as int) =~= Seq::<Seq<char>>::empty());
    }
    None
}

/// Reads a `www-authenticate` header, where there is one that is not blank: its
/// scheme, and the realm and the metadata address where it names them.
#[must_use]
pub fn parse_www_authenticate_challenge(header: Option<&str>) -> (r: Option<McpAuthChallenge>)
    ensures
        challenge_read(
            match header {
                Some(text) => Some(text@),
                None => None,
            },
            r,
        ),
{
    let text = match header {
        None => {
            return None;
        },
        Some(text) => text.trim(),
    };
    let chars = chars_of(text);
    if chars.len() == 0 {
        return None;
    }
    let mut at: usize = 0;
    proof {
        assert(chars@.subrange(0, chars@.len() as int) =~= chars@);
    }
    while at < chars.len() && !is_white_space(chars[at])
        invariant
            at <= chars@.len(),
            scheme_len(chars@) == at + scheme_len(
                chars@.subrange(at as int, chars@.len() as int),
            ),
        decreases chars@.len() - at,
    {
        proof {
            let rest = chars@.subrange(at as int, chars@.len() as int);
            assert(rest[0] == chars@[at as int]);
            assert(rest.drop_first() =~= chars@.subrange(at + 1, chars@.len() as int));
        }
        at += 1;
    }
    proof {
        let rest = chars@.subrange(at as int, chars@.len() as int);
        if at < chars@.len() {
            assert(rest[0] == chars@[at as int]);
        }
    }
    let scheme = text_of(&chars, 0, at);
    let rest = text_of(&chars, at, chars.len());
    let found = split_parts(&chars_of(rest.as_str()));
    Some(
        McpAuthChallenge {
            scheme,
            realm: find_attribute(&found, "realm"),
            resource_metadata: find_attribute(&found, "resource_metadata"),
        },
    )
}

/// What a response's status means: its body, a demand for credentials, or a
/// failure.
pub open spec fn status_means(
    endpoint: Seq<char>,
    status: u16,
    challenge: Option<McpAuthChallenge>,
    body: String,
    r: Result<String, Error>,
) -> bool {
    if 200 <= status < 300 {
        r == Ok::<String, Error>(body)
    } else if status == 401 {
        r matches Err(Error::Unauthorized { endpoint: shown, resource_metadata }) && shown@
            == crate::endpoint::redacted(endpoint) && resource_metadata == match challenge {
            Some(asked) => asked.resource_metadata,
            None => None,
        }
    } else {
        r matches Err(Error::Http { endpoint: shown, status: code, body: kept }) && shown@
            == crate::endpoint::redacted(endpoint) && code == status && kept == body
    }
}

/// What a response's status means. A 401 is a server that works and wants
/// credentials; it carries what decides between offering a sign-in and
/// offering a token field. Of any other failure the body is kept, because what
/// explains it lives there and not in the status.
pub fn check_status(
    endpoint: &str,
    status: u16,
    challenge: Option<McpAuthChallenge>,
    body: String,
) -> (r: Result<String, Error>)
    ensures
        status_means(endpoint@, status, challenge, body, r),
{
    if 200 <= status && status < 300 {
        Ok(body)
    } else if status == 401 {
        let resource_metadata = match challenge {
            Some(asked) => asked.resource_metadata,
            None => None,
        };
        Err(Error::Unauthorized { endpoint: redact_endpoint(endpoint), resource_metadata })
    } else {
        Err(Error::Http { endpoint: redact_endpoint(endpoint), status, body })
    }
}

} // verus!
