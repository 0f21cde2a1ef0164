//! What of an endpoint may be shown.
//!
//! Errors reach logs, telemetry and user interfaces, and a URL carries
//! credentials in its userinfo and in its query. Only the scheme, the host and
//! the port are ever shown.
use vstd::prelude::*;

use crate::text::{chars_of, find, text_of};

verus! {

/// What stands between a scheme and an authority.
pub const AUTHORITY_MARK: &'static str = "://";

/// Whether `c` may occur in a URL scheme.
pub open spec fn scheme_char(c: char) -> bool {
    ||| 'a' <= c <= 'z'
    ||| 'A' <= c <= 'Z'
    ||| '0' <= c <= '9'
    ||| c == '+'
    ||| c == '-'
    ||| c == '.'
}

/// Whether `c` ends the authority of a URL.
pub open spec fn ends_authority(c: char) -> bool {
    c == '/' || c == '?' || c == '#'
}

/// How many characters the scheme takes, its mark included; none where the
/// text does not start with a scheme.
pub open spec fn scheme_len(s: Seq<char>) -> int {
    match crate::text::first_at(s, AUTHORITY_MARK@) {
        Some(at) => if forall|i: int| 0 <= i < at ==> scheme_char(#[trigger] s[i]) {
            at + 3
        } else {
            0
        },
        None => 0,
    }
}

/// The part of `s` before the first character that ends an authority.
pub open spec fn authority(s: Seq<char>) -> Seq<char>
    decreases s.len(),
{
    if s.len() == 0 || ends_authority(s[0]) {
        Seq::empty()
    } else {
        seq![s[0]] + authority(s.drop_first())
    }
}

/// The part of an authority after its userinfo, which ends at the last `@`.
pub open spec fn host(s: Seq<char>) -> Seq<char>
    decreases s.len(),
{
    if s.len() == 0 || s.last() == '@' {
        Seq::empty()
    } else {
        host(s.drop_last()).push(s.last())
    }
}

/// The scheme, host and port of an endpoint: what may be shown of it.
pub open spec fn redacted(s: Seq<char>) -> Seq<char> {
    s.take(scheme_len(s)) + host(authority(s.skip(scheme_len(s))))
}

/// An authority is the longest prefix without a character that ends one.
proof fn lemma_authority(s: Seq<char>)
    ensures
        authority(s).len() <= s.len(),
        authority(s) == s.take(authority(s).len() as int),
        forall|i: int|
            0 <= i < authority(s).len() ==> !ends_authority(#[trigger] authority(s)[i]),
        authority(s).len() < s.len() ==> ends_authority(s[authority(s).len() as int]),
    decreases s.len(),
{
    if s.len() > 0 && !ends_authority(s[0]) {
        let rest = s.drop_first();
        lemma_authority(rest);
        let a = authority(s);
        assert(a =~= s.take(a.len() as int));
        assert forall|i: int| 0 <= i < a.len() implies !ends_authority(#[trigger] a[i]) by {
            if i > 0 {
                assert(a[i] == authority(rest)[i - 1]);
            }
        }
        if a.len() < s.len() {
            assert(rest[authority(rest).len() as int] == s[a.len() as int]);
        }
    } else {
        assert(authority(s) =~= s.take(0));
    }
}

/// A host is the longest suffix of its authority without an `@`.
proof fn lemma_host(s: Seq<char>)
    ensures
        host(s).len() <= s.len(),
        host(s) == s.skip(s.len() - host(s).len()),
        forall|i: int| 0 <= i < host(s).len() ==> #[trigger] host(s)[i] != '@',
        host(s).len() < s.len() ==> s[s.len() - host(s).len() - 1] == '@',
    decreases s.len(),
{
    if s.len() > 0 && s.last() != '@' {
        lemma_host(s.drop_last());
        assert(host(s) =~= s.skip(s.len() - host(s).len()));
    } else {
        assert(host(s) =~= s.skip(s.len() as int));
    }
}

/// What is shown of an endpoint holds no userinfo, no query and no fragment.
pub proof fn redaction_leaves_no_credentials(s: Seq<char>)
    ensures
        forall|i: int|
            0 <= i < redacted(s).len() ==> #[trigger] redacted(s)[i] != '@' && redacted(s)[i]
                != '?' && redacted(s)[i] != '#',
{
    let n = scheme_len(s);
    let rest = s.skip(n);
    lemma_scheme(s);
    lemma_authority(rest);
    lemma_host(authority(rest));
    let h = host(authority(rest));
    let r = redacted(s);
    assert forall|i: int| 0 <= i < r.len() implies #[trigger] r[i] != '@' && r[i] != '?' && r[i]
        != '#' by {
        if i < n {
            assert(r[i] == s[i]);
        } else {
            assert(r[i] == h[i - n]);
            let a = authority(rest);
            assert(h[i - n] == a[a.len() - h.len() + (i - n)]);
        }
    }
}

/// The scheme is made of scheme characters and its mark.
proof fn lemma_scheme(s: Seq<char>)
    ensures
        0 <= scheme_len(s) <= s.len(),
        scheme_len(s) > 0 ==> scheme_len(s) >= 3 && crate::text::first_at(s, AUTHORITY_MARK@)
            == Some(scheme_len(s) - 3),
        forall|i: int|
            0 <= i < scheme_len(s) ==> scheme_char(#[trigger] s[i]) || s[i] == ':' || s[i] == '/',
{
    reveal_strlit("://");
    crate::text::lemma_first_at(s, AUTHORITY_MARK@);
    let mark = AUTHORITY_MARK@;
    assert(mark =~= seq![':', '/', '/']);
    if scheme_len(s) > 0 {
        let at = crate::text::first_at(s, mark)->0;
        assert forall|i: int| 0 <= i < at + 3 implies scheme_char(#[trigger] s[i]) || s[i] == ':'
            || s[i] == '/' by {
            if i >= at {
                assert(s.subrange(at, at + 3)[i - at] == s[i]);
            }
        }
    }
}

/// Redacting what is already redacted changes nothing.
pub proof fn redaction_is_idempotent(s: Seq<char>)
    ensures
        redacted(redacted(s)) == redacted(s),
{
    reveal_strlit("://");
    let mark = AUTHORITY_MARK@;
    assert(mark =~= seq![':', '/', '/']);
    let n = scheme_len(s);
    let rest = s.skip(n);
    let a = authority(rest);
    let h = host(a);
    let r = redacted(s);
    lemma_scheme(s);
    lemma_authority(rest);
    lemma_host(a);
    crate::text::lemma_first_at(s, mark);
    crate::text::lemma_first_at(r, mark);
    assert forall|i: int| 0 <= i < h.len() implies !ends_authority(#[trigger] h[i]) && h[i] != '@' by {
        assert(h[i] == a[a.len() - h.len() + i]);
    }
    if n > 0 {
        let at = n - 3;
        assert(r.subrange(at, at + 3) =~= s.subrange(at, at + 3));
        assert(crate::text::stands_at(r, mark, at));
        assert forall|i: int| 0 <= i < at implies !crate::text::stands_at(r, mark, i) by {
            if crate::text::stands_at(r, mark, i) {
                assert(r.subrange(i, i + 3)[0] == ':');
                assert(r[i] == s[i]);
                assert(scheme_char(s[i]));
            }
        }
        assert(crate::text::first_at(r, mark) == Some(at));
        assert forall|i: int| 0 <= i < at implies scheme_char(#[trigger] r[i]) by {
            assert(r[i] == s[i]);
        }
        assert(scheme_len(r) == n);
    } else {
        assert(r =~= h);
        assert forall|i: int| !crate::text::stands_at(r, mark, i) by {
            if crate::text::stands_at(r, mark, i) {
                assert(r.subrange(i, i + 3)[1] == '/');
                assert(r[i + 1] == h[i + 1]);
            }
        }
        assert(scheme_len(r) == 0);
    }
    assert(r.skip(n) =~= h);
    lemma_authority(h);
    assert(authority(h) =~= h);
    lemma_host(h);
    assert(host(h) =~= h) by {
        if host(h).len() < h.len() {
            assert(h[h.len() - host(h).len() - 1] == '@');
        }
    }
    assert(r.take(n) =~= s.take(n));
}

/// Whether `c` may occur in a URL scheme.
fn is_scheme_char(c: char) -> (r: bool)
    ensures
        r == scheme_char(c),
{
    ('a' <= c && c <= 'z') || ('A' <= c && c <= 'Z') || ('0' <= c && c <= '9') || c == '+' || c
        == '-' || c == '.'
}

/// How many characters the scheme takes, its mark included.
fn scheme_size(chars: &Vec<char>) -> (n: usize)
    ensures
        n == scheme_len(chars@),
{
    let mark = chars_of(AUTHORITY_MARK);
    proof {
        lemma_scheme(chars@);
        reveal_strlit("://");
        crate::text::lemma_first_at(chars@, AUTHORITY_MARK@);
    }
    match find(chars, &mark) {
        None => 0,
        Some(at) => {
            let mut i: usize = 0;
            while i < at
                invariant
                    i <= at < chars@.len(),
                    crate::text::first_at(chars@, AUTHORITY_MARK@) == Some(at as int),
                    forall|j: int| 0 <= j < i ==> scheme_char(#[trigger] chars@[j]),
                decreases at - i,
            {
                if !is_scheme_char(chars[i]) {
                    return 0;
                }
                i = i + 1;
            }
            let size: usize = chars.len();
            assert(at + 3 <= size);
            at + 3
        },
    }
}

/// What may be shown of an endpoint: its scheme, host and port.
pub fn redact_endpoint(endpoint: &str) -> (r: String)
    ensures
        r@ == redacted(endpoint@),
{
    let chars = chars_of(endpoint);
    let start: usize = scheme_size(&chars);
    proof {
        lemma_scheme(chars@);
    }
    let ghost rest = chars@.skip(start as int);
    proof {
        lemma_authority(rest);
        lemma_host(authority(rest));
    }
    let mut end: usize = start;
    while end < chars.len() && chars[end] != '/' && chars[end] != '?' && chars[end] != '#'
        invariant
            start <= end <= chars@.len(),
            rest == chars@.skip(start as int),
            forall|i: int| start <= i < end ==> !ends_authority(#[trigger] chars@[i]),
        decreases chars@.len() - end,
    {
        end = end + 1;
    }
    proof {
        let a = authority(rest);
        if a.len() < end - start {
            assert(rest[a.len() as int] == chars@[start + a.len()]);
        }
        if end - start < a.len() {
            assert(a[end - start] == rest[end - start]);
            assert(rest[end - start] == chars@[end as int]);
        }
        assert(a =~= chars@.subrange(start as int, end as int));
    }
    let mut from: usize = end;
    while from > start && chars[from - 1] != '@'
        invariant
            start <= from <= end <= chars@.len(),
            forall|i: int| from <= i < end ==> #[trigger] chars@[i] != '@',
        decreases from,
    {
        from = from - 1;
    }
    proof {
        let a = authority(rest);
        let h = host(a);
        if h.len() > end - from {
            assert(h[h.len() - (end - from) - 1] == a[a.len() - (end - from) - 1]);
        }
        if h.len() < end - from {
            assert(a[a.len() - h.len() - 1] == chars@[end - h.len() - 1]);
        }
        assert(h =~= chars@.subrange(from as int, end as int));
        assert(chars@.subrange(0, start as int) =~= chars@.take(start as int));
    }
    let mut shown = text_of(&chars, 0, start);
    let tail = text_of(&chars, from, end);
    shown.push_str(tail.as_str());
    shown
}

/// Whether a text holds nothing that ends an authority.
pub open spec fn within_authority(s: Seq<char>) -> bool {
    forall|i: int| 0 <= i < s.len() ==> !ends_authority(#[trigger] s[i])
}

proof fn lemma_scheme_first(scheme: Seq<char>, rest: Seq<char>)
    requires
        forall|i: int| 0 <= i < scheme.len() ==> scheme_char(#[trigger] scheme[i]),
    ensures
        crate::text::first_at(scheme + AUTHORITY_MARK@ + rest, AUTHORITY_MARK@) == Some(
            scheme.len() as int,
        ),
    decreases scheme.len(),
{
    let mark = AUTHORITY_MARK@;
    let whole = scheme + mark + rest;
    if scheme.len() == 0 {
        assert(mark.is_prefix_of(whole)) by {
            assert(whole.subrange(0, mark.len() as int) =~= mark);
        }
    } else {
        assert(!mark.is_prefix_of(whole)) by {
            reveal_strlit("://");
            assert(mark[0] == ':');
            assert(whole[0] == scheme[0]);
            assert(scheme_char(scheme[0]));
            if mark.is_prefix_of(whole) {
                assert(whole.subrange(0, mark.len() as int)[0] == mark[0]);
            }
        }
        let shorter = scheme.drop_first();
        assert forall|i: int| 0 <= i < shorter.len() implies scheme_char(
            #[trigger] shorter[i],
        ) by {
            assert(shorter[i] == scheme[i + 1]);
        }
        lemma_scheme_first(shorter, rest);
        assert(whole.drop_first() =~= shorter + mark + rest);
    }
}

proof fn lemma_authority_of(inside: Seq<char>, rest: Seq<char>)
    requires
        within_authority(inside),
        rest.len() == 0 || ends_authority(rest[0]),
    ensures
        authority(inside + rest) == inside,
    decreases inside.len(),
{
    let whole = inside + rest;
    if inside.len() == 0 {
        assert(whole =~= rest);
        assert(authority(whole) =~= inside);
    } else {
        let shorter = inside.drop_first();
        assert forall|i: int| 0 <= i < shorter.len() implies !ends_authority(
            #[trigger] shorter[i],
        ) by {
            assert(shorter[i] == inside[i + 1]);
        }
        lemma_authority_of(shorter, rest);
        assert(whole.drop_first() =~= shorter + rest);
        assert(whole[0] == inside[0]);
        assert(authority(whole) =~= inside);
    }
}

proof fn lemma_host_of(before: Seq<char>, name: Seq<char>)
    requires
        before.len() == 0 || before.last() == '@',
        forall|i: int| 0 <= i < name.len() ==> (#[trigger] name[i]) != '@',
    ensures
        host(before + name) == name,
    decreases name.len(),
{
    let whole = before + name;
    if name.len() == 0 {
        assert(whole =~= before);
        assert(host(whole) =~= name);
    } else {
        let shorter = name.drop_last();
        assert forall|i: int| 0 <= i < shorter.len() implies (#[trigger] shorter[i]) != '@' by {
            assert(shorter[i] == name[i]);
        }
        lemma_host_of(before, shorter);
        assert(whole.drop_last() =~= before + shorter);
        assert(whole.last() == name.last());
        assert(host(whole) =~= name);
    }
}

/// Of an endpoint made of a scheme, userinfo or none, a host with its port, and
/// whatever follows, exactly the scheme and the host are shown.
pub proof fn the_scheme_and_the_host_are_shown(
    scheme: Seq<char>,
    userinfo: Seq<char>,
    name: Seq<char>,
    rest: Seq<char>,
)
    requires
        forall|i: int| 0 <= i < scheme.len() ==> scheme_char(#[trigger] scheme[i]),
        within_authority(userinfo),
        userinfo.len() == 0 || userinfo.last() == '@',
        within_authority(name),
        forall|i: int| 0 <= i < name.len() ==> (#[trigger] name[i]) != '@',
        rest.len() == 0 || rest[0] == '/' || rest[0] == '?' || rest[0] == '#',
    ensures
        redacted(scheme + "://"@ + userinfo + name + rest) == scheme + "://"@ + name,
{
    let mark = AUTHORITY_MARK@;
    let inside = userinfo + name;
    let behind = inside + rest;
    let whole = scheme + "://"@ + userinfo + name + rest;
    reveal_strlit("://");
    assert(mark.len() == 3);
    assert(whole =~= scheme + mark + behind);
    lemma_scheme_first(scheme, behind);
    assert forall|i: int| 0 <= i < scheme.len() implies scheme_char(#[trigger] whole[i]) by {
        assert(whole[i] == scheme[i]);
    }
    assert(scheme_len(whole) == scheme.len() + 3);
    assert(whole.skip(scheme.len() as int + 3) =~= behind);
    assert forall|i: int| 0 <= i < inside.len() implies !ends_authority(#[trigger] inside[i]) by {
        if i < userinfo.len() {
            assert(inside[i] == userinfo[i]);
        } else {
            assert(inside[i] == name[i - userinfo.len()]);
        }
    }
    lemma_authority_of(inside, rest);
    lemma_host_of(userinfo, name);
    assert(whole.take(scheme.len() as int + 3) =~= scheme + mark);
}

} // verus!
