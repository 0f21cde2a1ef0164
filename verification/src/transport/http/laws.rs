//! What holds of every stream and every challenge.
use vstd::prelude::*;

use super::sse::FrameView;

verus! {

/// Whether a text can stand on one line of a stream and be read back whole.
pub open spec fn one_line(s: Seq<char>) -> bool {
    &&& forall|i: int| 0 <= i < s.len() ==> (#[trigger] s[i]) != '\n'
    &&& s.len() == 0 || s.last() != '\r'
}

/// What has arrived before a line that has not ended is not part of it.
proof fn lemma_unfinished(s: Seq<char>, line: Seq<char>)
    requires
        super::sse::open_line(s).len() == 0,
        forall|i: int| 0 <= i < line.len() ==> (#[trigger] line[i]) != '\n',
    ensures
        super::sse::open_line(s + line) == line,
        super::sse::lines(s + line) == super::sse::lines(s),
    decreases line.len(),
{
    let whole = s + line;
    if line.len() == 0 {
        assert(whole =~= s);
        assert(super::sse::open_line(whole) =~= line);
    } else {
        let shorter = line.drop_last();
        assert forall|i: int| 0 <= i < shorter.len() implies (#[trigger] shorter[i]) != '\n' by {
            assert(shorter[i] == line[i]);
        }
        lemma_unfinished(s, shorter);
        assert(whole.drop_last() =~= s + shorter);
        assert(whole.last() == line.last());
        assert(shorter.push(line.last()) =~= line);
    }
}

/// A line that a newline ends is one more line, whether or not a carriage return
/// stands before the newline.
pub proof fn a_newline_ends_a_line(s: Seq<char>, line: Seq<char>)
    requires
        super::sse::open_line(s).len() == 0,
        one_line(line),
    ensures
        super::sse::lines(s + line + seq!['\n']) == super::sse::lines(s).push(line),
        super::sse::lines(s + line + seq!['\r', '\n']) == super::sse::lines(s).push(line),
        super::sse::open_line(s + line + seq!['\n']).len() == 0,
        super::sse::open_line(s + line + seq!['\r', '\n']).len() == 0,
{
    lemma_unfinished(s, line);
    let plain = s + line + seq!['\n'];
    assert(plain.drop_last() =~= s + line);
    let returned = line.push('\r');
    assert forall|i: int| 0 <= i < returned.len() implies (#[trigger] returned[i]) != '\n' by {
        if i < line.len() {
            assert(returned[i] == line[i]);
        }
    }
    lemma_unfinished(s, returned);
    let both = s + line + seq!['\r', '\n'];
    assert(both.drop_last() =~= s + returned);
    assert(returned.drop_last() =~= line);
}

/// A name without a colon ends at the first one.
proof fn lemma_colon(name: Seq<char>, rest: Seq<char>)
    requires
        forall|i: int| 0 <= i < name.len() ==> (#[trigger] name[i]) != ':',
    ensures
        super::sse::colon_at(name + seq![':'] + rest) == name.len(),
        super::sse::colon_at(name) == name.len(),
    decreases name.len(),
{
    let line = name + seq![':'] + rest;
    if name.len() > 0 {
        let shorter = name.drop_first();
        assert forall|i: int| 0 <= i < shorter.len() implies (#[trigger] shorter[i]) != ':' by {
            assert(shorter[i] == name[i + 1]);
        }
        lemma_colon(shorter, rest);
        assert(line.drop_first() =~= shorter + seq![':'] + rest);
        assert(line[0] == name[0]);
    }
}

/// A line names the field before its first colon and says what stands behind it,
/// one space left out where one stands there. A line without a colon names a
/// field and says nothing of it.
pub proof fn a_line_says_what_follows_its_colon(name: Seq<char>, value: Seq<char>)
    requires
        forall|i: int| 0 <= i < name.len() ==> (#[trigger] name[i]) != ':',
    ensures
        super::sse::field_name(name + seq![':', ' '] + value) == name,
        super::sse::field_value(name + seq![':', ' '] + value) == value,
        super::sse::field_name(name + seq![':'] + value) == name,
        value.len() == 0 || value[0] != ' ' ==> super::sse::field_value(name + seq![':'] + value)
            == value,
        super::sse::field_name(name) == name,
        super::sse::field_value(name).len() == 0,
{
    let spaced = name + seq![':', ' '] + value;
    assert(spaced =~= name + seq![':'] + (seq![' '] + value));
    lemma_colon(name, seq![' '] + value);
    assert(super::sse::field_name(spaced) =~= name);
    assert(super::sse::field_value(spaced) =~= value);
    let close = name + seq![':'] + value;
    lemma_colon(name, value);
    assert(super::sse::field_name(close) =~= name);
    if value.len() == 0 || value[0] != ' ' {
        if value.len() > 0 {
            assert(close[name.len() as int + 1] == value[0]);
        }
        assert(super::sse::field_value(close) =~= value);
    }
    assert(super::sse::field_name(name) =~= name);
}

proof fn lemma_field_names()
    ensures
        "data"@ == seq!['d', 'a', 't', 'a'],
        "id"@ == seq!['i', 'd'],
        "event"@ == seq!['e', 'v', 'e', 'n', 't'],
        "\n"@ == seq!['\n'],
{
    reveal_strlit("data");
    reveal_strlit("id");
    reveal_strlit("event");
    reveal_strlit("\n");
    assert("data"@ =~= seq!['d', 'a', 't', 'a']);
    assert("id"@ =~= seq!['i', 'd']);
    assert("event"@ =~= seq!['e', 'v', 'e', 'n', 't']);
    assert("\n"@ =~= seq!['\n']);
}

/// A payload line adds to the payload, behind what is there and on a line of its
/// own; an identifier or a type replaces what is there; a comment or any other
/// field changes nothing.
pub proof fn what_a_line_adds(frame: FrameView, name: Seq<char>, value: Seq<char>)
    requires
        forall|i: int| 0 <= i < name.len() ==> (#[trigger] name[i]) != ':',
    ensures
        ({
            let next = super::sse::with_line(frame, name + seq![':', ' '] + value);
            &&& next.data == if name == "data"@ {
                match frame.data {
                    Some(before) => Some(before + seq!['\n'] + value),
                    None => Some(value),
                }
            } else {
                frame.data
            }
            &&& next.id == if name == "id"@ {
                Some(value)
            } else {
                frame.id
            }
            &&& next.event == if name == "event"@ {
                Some(value)
            } else {
                frame.event
            }
        }),
        super::sse::with_line(frame, seq![':'] + value) == frame,
{
    a_line_says_what_follows_its_colon(name, value);
    lemma_field_names();
    let comment = seq![':'] + value;
    assert(comment =~= Seq::<char>::empty() + seq![':'] + value);
    lemma_colon(Seq::empty(), value);
    assert(super::sse::field_name(comment).len() == 0);
}

/// A stream that ends with a whole frame is read frame by frame: what follows it
/// is read as a stream of its own.
pub proof fn whole_frames_are_read_one_after_the_other(first: Seq<char>, more: Seq<char>)
    requires
        super::sse::open_line(first).len() == 0,
        super::sse::open_frame(super::sse::lines(first)) == super::sse::empty_frame(),
    ensures
        super::sse::frames_of(first + more) == super::sse::frames_of(first)
            + super::sse::frames_of(more),
{
    lemma_streams(first, more);
    lemma_line_groups(super::sse::lines(first), super::sse::lines(more));
}

proof fn lemma_streams(first: Seq<char>, more: Seq<char>)
    requires
        super::sse::open_line(first).len() == 0,
    ensures
        super::sse::lines(first + more) == super::sse::lines(first) + super::sse::lines(more),
        super::sse::open_line(first + more) == super::sse::open_line(more),
    decreases more.len(),
{
    let whole = first + more;
    if more.len() == 0 {
        assert(whole =~= first);
        assert(super::sse::lines(first) + super::sse::lines(more) =~= super::sse::lines(first));
        assert(super::sse::open_line(whole) =~= super::sse::open_line(more));
    } else {
        lemma_streams(first, more.drop_last());
        assert(whole.drop_last() =~= first + more.drop_last());
        assert(whole.last() == more.last());
        assert(super::sse::lines(whole) =~= super::sse::lines(first) + super::sse::lines(more));
    }
}

proof fn lemma_line_groups(first: Seq<Seq<char>>, more: Seq<Seq<char>>)
    requires
        super::sse::open_frame(first) == super::sse::empty_frame(),
    ensures
        super::sse::frames(first + more) == super::sse::frames(first) + super::sse::frames(more),
        super::sse::open_frame(first + more) == super::sse::open_frame(more),
    decreases more.len(),
{
    let whole = first + more;
    if more.len() == 0 {
        assert(whole =~= first);
        assert(super::sse::frames(first) + super::sse::frames(more) =~= super::sse::frames(first));
    } else {
        lemma_line_groups(first, more.drop_last());
        assert(whole.drop_last() =~= first + more.drop_last());
        assert(whole.last() == more.last());
        assert(super::sse::frames(whole) =~= super::sse::frames(first) + super::sse::frames(more));
    }
}

/// An event that is written out is read back: its identifier, its type and its
/// payload, whatever each of them holds, as long as each fits on a line and the
/// payload is not empty. The frame is read once its blank line has arrived, and
/// not before.
pub proof fn an_event_is_read_back(id: Seq<char>, event: Seq<char>, data: Seq<char>)
    requires
        one_line(id),
        one_line(event),
        one_line(data),
        data.len() > 0,
        id.len() > 0,
        event.len() > 0,
    ensures
        ({
            let written = "id"@ + seq![':', ' '] + id + seq!['\n'] + ("event"@ + seq![':', ' ']
                + event) + seq!['\n'] + ("data"@ + seq![':', ' '] + data) + seq!['\n'];
            &&& super::sse::frames_of(written).len() == 0
            &&& super::sse::frames_of(written + seq!['\n']) == seq![
                FrameView { id: Some(id), event: Some(event), data: Some(data) },
            ]
        }),
{
    lemma_field_names();
    let none = Seq::<char>::empty();
    let l1 = "id"@ + seq![':', ' '] + id;
    let l2 = "event"@ + seq![':', ' '] + event;
    let l3 = "data"@ + seq![':', ' '] + data;
    lemma_written_line("id"@, id);
    lemma_written_line("event"@, event);
    lemma_written_line("data"@, data);
    let s1 = l1 + seq!['\n'];
    let s2 = s1 + l2 + seq!['\n'];
    let s3 = s2 + l3 + seq!['\n'];
    let s4 = s3 + seq!['\n'];
    assert(none + l1 =~= l1);
    a_newline_ends_a_line(none, l1);
    a_newline_ends_a_line(s1, l2);
    a_newline_ends_a_line(s2, l3);
    a_newline_ends_a_line(s3, none);
    assert(s3 + none =~= s3);
    let g0 = Seq::<Seq<char>>::empty();
    assert(super::sse::lines(none) =~= g0);
    let g1 = g0.push(l1);
    let g2 = g1.push(l2);
    let g3 = g2.push(l3);
    let g4 = g3.push(none);
    assert(super::sse::lines(s1) == g1);
    assert(super::sse::lines(s2) == g2);
    assert(super::sse::lines(s3) == g3);
    assert(super::sse::lines(s4) == g4);
    assert(g1.drop_last() =~= g0);
    assert(g2.drop_last() =~= g1);
    assert(g3.drop_last() =~= g2);
    assert(g4.drop_last() =~= g3);
    let f0 = super::sse::empty_frame();
    what_a_line_adds(f0, "id"@, id);
    assert(super::sse::open_frame(g0) == f0);
    assert(g1.last() == l1 && g2.last() == l2 && g3.last() == l3);
    let f1 = super::sse::open_frame(g1);
    assert(f1 == super::sse::with_line(f0, l1));
    what_a_line_adds(f1, "event"@, event);
    let f2 = super::sse::open_frame(g2);
    assert(f2 == super::sse::with_line(f1, l2));
    what_a_line_adds(f2, "data"@, data);
    let f3 = super::sse::open_frame(g3);
    assert(f3 == super::sse::with_line(f2, l3));
    assert(super::sse::frames(g0).len() == 0);
    assert(super::sse::frames(g1).len() == 0);
    assert(super::sse::frames(g2).len() == 0);
    assert(super::sse::frames(g3).len() == 0);
    assert(super::sse::frames(g4) =~= seq![
        FrameView { id: Some(id), event: Some(event), data: Some(data) },
    ]);
    let written = "id"@ + seq![':', ' '] + id + seq!['\n'] + ("event"@ + seq![':', ' '] + event)
        + seq!['\n'] + ("data"@ + seq![':', ' '] + data) + seq!['\n'];
    assert(written =~= s3);
}

proof fn lemma_written_line(name: Seq<char>, value: Seq<char>)
    requires
        one_line(value),
        value.len() > 0,
        name.len() > 0,
        forall|i: int| 0 <= i < name.len() ==> (#[trigger] name[i]) != '\n',
    ensures
        one_line(name + seq![':', ' '] + value),
        (name + seq![':', ' '] + value).len() > 0,
{
    let line = name + seq![':', ' '] + value;
    assert forall|i: int| 0 <= i < line.len() implies (#[trigger] line[i]) != '\n' by {
        if i < name.len() {
            assert(line[i] == name[i]);
        } else if i >= name.len() + 2 {
            assert(line[i] == value[i - name.len() - 2]);
        }
    }
    assert(line.last() == value.last());
}

/// A frame is read as it was written, but for a payload with nothing in it,
/// which is none; and a frame that then says nothing is not read.
pub proof fn an_empty_payload_is_none(frame: FrameView)
    ensures
        ({
            let read = super::sse::ended(frame);
            &&& read.id == frame.id
            &&& read.event == frame.event
            &&& read.data is Some <==> (frame.data matches Some(text) && text.len() > 0)
            &&& read.data is Some ==> read.data == frame.data
        }),
{
}

/// A text that begins and ends with something other than white space is left as
/// it is by trimming.
proof fn lemma_trimmed_whole(s: Seq<char>)
    requires
        s.len() > 0,
        !crate::text::white_space(s[0]),
        !crate::text::white_space(s.last()),
    ensures
        crate::text::trimmed(s) == s,
{
    assert(crate::text::trimmed_start(s) == s);
    assert(crate::text::trimmed_end(s) == s);
}

/// A space in front of such a text is trimmed off.
proof fn lemma_trimmed_space(s: Seq<char>)
    requires
        s.len() > 0,
        !crate::text::white_space(s[0]),
        !crate::text::white_space(s.last()),
    ensures
        crate::text::trimmed(seq![' '] + s) == s,
{
    let spaced = seq![' '] + s;
    assert(spaced.drop_first() =~= s);
    assert(spaced[0] == ' ');
    assert(crate::text::trimmed_start(s) == s);
    assert(crate::text::trimmed_start(spaced) == s);
    assert(crate::text::trimmed_end(s) == s);
}

/// Whether a text has neither a quote nor a comma.
pub open spec fn plain(s: Seq<char>) -> bool {
    forall|i: int| 0 <= i < s.len() ==> (#[trigger] s[i]) != '"' && s[i] != ','
}

/// Whether a text has no quote.
pub open spec fn unquotable(s: Seq<char>) -> bool {
    forall|i: int| 0 <= i < s.len() ==> (#[trigger] s[i]) != '"'
}

proof fn lemma_plain(s: Seq<char>, more: Seq<char>)
    requires
        plain(more),
    ensures
        super::headers::quote_open(s + more) == super::headers::quote_open(s),
        super::headers::last_part(s + more) == super::headers::last_part(s) + more,
        super::headers::earlier_parts(s + more) == super::headers::earlier_parts(s),
    decreases more.len(),
{
    let whole = s + more;
    if more.len() == 0 {
        assert(whole =~= s);
        assert(super::headers::last_part(s) + more =~= super::headers::last_part(s));
    } else {
        let shorter = more.drop_last();
        assert forall|i: int| 0 <= i < shorter.len() implies (#[trigger] shorter[i]) != '"'
            && shorter[i] != ',' by {
            assert(shorter[i] == more[i]);
        }
        lemma_plain(s, shorter);
        assert(whole.drop_last() =~= s + shorter);
        assert(whole.last() == more.last());
        assert(super::headers::last_part(whole) =~= super::headers::last_part(s) + more);
    }
}

proof fn lemma_inside_quotes(s: Seq<char>, more: Seq<char>)
    requires
        super::headers::quote_open(s),
        unquotable(more),
    ensures
        super::headers::quote_open(s + more),
        super::headers::last_part(s + more) == super::headers::last_part(s) + more,
        super::headers::earlier_parts(s + more) == super::headers::earlier_parts(s),
    decreases more.len(),
{
    let whole = s + more;
    if more.len() == 0 {
        assert(whole =~= s);
        assert(super::headers::last_part(s) + more =~= super::headers::last_part(s));
    } else {
        let shorter = more.drop_last();
        assert forall|i: int| 0 <= i < shorter.len() implies (#[trigger] shorter[i]) != '"' by {
            assert(shorter[i] == more[i]);
        }
        lemma_inside_quotes(s, shorter);
        assert(whole.drop_last() =~= s + shorter);
        assert(whole.last() == more.last());
        assert(super::headers::last_part(whole) =~= super::headers::last_part(s) + more);
    }
}

/// A value in quotes.
pub open spec fn in_quotes(value: Seq<char>) -> Seq<char> {
    seq!['"'] + value + seq!['"']
}

proof fn lemma_quoted(s: Seq<char>, value: Seq<char>)
    requires
        !super::headers::quote_open(s),
        unquotable(value),
    ensures
        !super::headers::quote_open(s + in_quotes(value)),
        super::headers::last_part(s + in_quotes(value)) == super::headers::last_part(s)
            + in_quotes(value),
        super::headers::earlier_parts(s + in_quotes(value)) == super::headers::earlier_parts(s),
{
    let opened = s + seq!['"'];
    assert(opened.drop_last() =~= s);
    assert(opened.last() == '"');
    assert(super::headers::last_part(opened) =~= super::headers::last_part(s) + seq!['"']);
    lemma_inside_quotes(opened, value);
    let inside = opened + value;
    let whole = inside + seq!['"'];
    assert(whole.drop_last() =~= inside);
    assert(whole.last() == '"');
    assert(whole =~= s + in_quotes(value));
    assert(super::headers::last_part(whole) =~= super::headers::last_part(s) + in_quotes(value));
}

proof fn lemma_comma(s: Seq<char>)
    requires
        !super::headers::quote_open(s),
    ensures
        !super::headers::quote_open(s + seq![',']),
        super::headers::last_part(s + seq![',']).len() == 0,
        super::headers::earlier_parts(s + seq![',']) == super::headers::earlier_parts(s).push(
            super::headers::last_part(s),
        ),
{
    let whole = s + seq![','];
    assert(whole.drop_last() =~= s);
    assert(whole.last() == ',');
}

proof fn lemma_equals(name: Seq<char>, rest: Seq<char>)
    requires
        forall|i: int| 0 <= i < name.len() ==> (#[trigger] name[i]) != '=',
    ensures
        super::headers::equals_at(name + seq!['='] + rest) == name.len(),
    decreases name.len(),
{
    let part = name + seq!['='] + rest;
    if name.len() > 0 {
        let shorter = name.drop_first();
        assert forall|i: int| 0 <= i < shorter.len() implies (#[trigger] shorter[i]) != '=' by {
            assert(shorter[i] == name[i + 1]);
        }
        lemma_equals(shorter, rest);
        assert(part.drop_first() =~= shorter + seq!['='] + rest);
        assert(part[0] == name[0]);
    }
}

/// Whether a text can be an attribute's name: letters, hyphens and underscores.
pub open spec fn attribute_name(s: Seq<char>) -> bool {
    &&& s.len() > 0
    &&& forall|i: int|
        0 <= i < s.len() ==> ('a' <= (#[trigger] s[i]) <= 'z' || 'A' <= s[i] <= 'Z' || s[i] == '-'
            || s[i] == '_')
}

/// An attribute is known by its name in any case, and its value is what stands
/// between its quotes, whatever that is.
pub proof fn an_attribute_is_read_between_its_quotes(
    name: Seq<char>,
    value: Seq<char>,
    asked: Seq<char>,
)
    requires
        attribute_name(name),
        unquotable(value),
    ensures
        ({
            let part = seq![' '] + name + seq!['='] + in_quotes(value);
            &&& super::headers::part_is(part, asked) <==> crate::text::lower_text(name) == asked
            &&& super::headers::part_value(part) == value
        }),
{
    let spaced = seq![' '] + name;
    let part = seq![' '] + name + seq!['='] + in_quotes(value);
    assert forall|i: int| 0 <= i < spaced.len() implies (#[trigger] spaced[i]) != '=' by {
        if i > 0 {
            assert(spaced[i] == name[i - 1]);
        }
    }
    lemma_equals(spaced, in_quotes(value));
    assert(part.subrange(0, spaced.len() as int) =~= spaced);
    assert(part.subrange(spaced.len() as int + 1, part.len() as int) =~= in_quotes(value));
    assert(!crate::text::white_space(name[0]));
    assert(!crate::text::white_space(name.last()));
    lemma_trimmed_space(name);
    let quoted = in_quotes(value);
    assert(quoted[0] == '"' && quoted.last() == '"');
    lemma_trimmed_whole(quoted);
    assert(super::headers::unquoted(quoted) =~= value);
}

/// A challenge that is written out is read back: its scheme, its realm and its
/// metadata address, whatever the two values hold, commas included, as long as
/// they hold no quote.
pub proof fn a_challenge_is_read_back(
    scheme: Seq<char>,
    realm: Seq<char>,
    metadata: Seq<char>,
    r: Option<crate::error::McpAuthChallenge>,
)
    requires
        scheme.len() > 0,
        forall|i: int| 0 <= i < scheme.len() ==> !crate::text::white_space(#[trigger] scheme[i]),
        unquotable(realm),
        unquotable(metadata),
        super::headers::challenge_read(
            Some(
                scheme + seq![' '] + "realm"@ + seq!['='] + in_quotes(realm) + seq![','] + (
                seq![' '] + "resource_metadata"@ + seq!['='] + in_quotes(metadata)),
            ),
            r,
        ),
    ensures
        r matches Some(challenge) && challenge.scheme@ == scheme && (challenge.realm matches Some(
            said,
        ) && said@ == realm) && (challenge.resource_metadata matches Some(address) && address@
            == metadata),
{
    lemma_attribute_names();
    let written = scheme + seq![' '] + "realm"@ + seq!['='] + in_quotes(realm) + seq![',']
        + (seq![' '] + "resource_metadata"@ + seq!['='] + in_quotes(metadata));
    assert(written[0] == scheme[0]);
    assert(written.last() == '"');
    assert(!crate::text::white_space('"'));
    lemma_trimmed_whole(written);
    crate::text::blank_means_all_white_space(written);
    let first = seq![' '] + "realm"@ + seq!['='] + in_quotes(realm);
    let second = seq![' '] + "resource_metadata"@ + seq!['='] + in_quotes(metadata);
    let rest = first + seq![','] + second;
    assert(written =~= scheme + rest);
    lemma_scheme_len(scheme, rest);
    assert(written.subrange(0, scheme.len() as int) =~= scheme);
    assert(written.subrange(scheme.len() as int, written.len() as int) =~= rest);
    let none = Seq::<char>::empty();
    lemma_one_attribute(none, "realm"@, realm);
    assert(none + first =~= first);
    assert(super::headers::last_part(none) + first =~= first);
    lemma_comma(first);
    let upto = first + seq![','];
    lemma_one_attribute(upto, "resource_metadata"@, metadata);
    assert(super::headers::last_part(upto) + second =~= second);
    let parts = super::headers::parts(rest);
    assert(parts =~= seq![first, second]);
    an_attribute_is_read_between_its_quotes("realm"@, realm, "realm"@);
    an_attribute_is_read_between_its_quotes("realm"@, realm, "resource_metadata"@);
    an_attribute_is_read_between_its_quotes("resource_metadata"@, metadata, "resource_metadata"@);
    assert(parts[0] == first);
    assert(parts.drop_first() =~= seq![second]);
    assert(super::headers::attribute(seq![second], "resource_metadata"@) == Some(metadata));
}

proof fn lemma_one_attribute(s: Seq<char>, name: Seq<char>, value: Seq<char>)
    requires
        !super::headers::quote_open(s),
        attribute_name(name),
        unquotable(value),
    ensures
        ({
            let part = seq![' '] + name + seq!['='] + in_quotes(value);
            &&& !super::headers::quote_open(s + part)
            &&& super::headers::last_part(s + part) == super::headers::last_part(s) + part
            &&& super::headers::earlier_parts(s + part) == super::headers::earlier_parts(s)
        }),
{
    let head = seq![' '] + name + seq!['='];
    assert forall|i: int| 0 <= i < head.len() implies (#[trigger] head[i]) != '"' && head[i]
        != ',' by {
        if 0 < i < name.len() + 1 {
            assert(head[i] == name[i - 1]);
        }
    }
    lemma_plain(s, head);
    lemma_quoted(s + head, value);
    let part = head + in_quotes(value);
    assert(s + head + in_quotes(value) =~= s + part);
    assert(super::headers::last_part(s) + head + in_quotes(value) =~= super::headers::last_part(s)
        + part);
}

proof fn lemma_scheme_len(scheme: Seq<char>, rest: Seq<char>)
    requires
        forall|i: int| 0 <= i < scheme.len() ==> !crate::text::white_space(#[trigger] scheme[i]),
        rest.len() > 0,
        crate::text::white_space(rest[0]),
    ensures
        super::headers::scheme_len(scheme + rest) == scheme.len(),
    decreases scheme.len(),
{
    let whole = scheme + rest;
    if scheme.len() == 0 {
        assert(whole =~= rest);
    } else {
        let shorter = scheme.drop_first();
        assert forall|i: int| 0 <= i < shorter.len() implies !crate::text::white_space(
            #[trigger] shorter[i],
        ) by {
            assert(shorter[i] == scheme[i + 1]);
        }
        lemma_scheme_len(shorter, rest);
        assert(whole.drop_first() =~= shorter + rest);
        assert(whole[0] == scheme[0]);
    }
}

proof fn lemma_attribute_names()
    ensures
        attribute_name("realm"@),
        attribute_name("resource_metadata"@),
        crate::text::lower_text("realm"@) == "realm"@,
        crate::text::lower_text("resource_metadata"@) == "resource_metadata"@,
        "realm"@ != "resource_metadata"@,
{
    reveal_strlit("realm");
    reveal_strlit("resource_metadata");
    assert("realm"@.len() == 5 && "resource_metadata"@.len() == 17);
    assert(crate::text::lower_text("realm"@) =~= "realm"@);
    assert(crate::text::lower_text("resource_metadata"@) =~= "resource_metadata"@);
}

/// A response succeeds exactly where its status is in the two hundreds, and then
/// its body is had. It wants credentials exactly where the status is 401, and
/// says where they are described exactly where the challenge does. Any other
/// status is a failure that keeps the status and the body. Neither shows more of
/// the endpoint than may be shown.
pub proof fn what_a_status_means(
    endpoint: Seq<char>,
    status: u16,
    challenge: Option<crate::error::McpAuthChallenge>,
    body: String,
    r: Result<String, crate::error::Error>,
)
    requires
        super::headers::status_means(endpoint, status, challenge, body, r),
    ensures
        r is Ok <==> status / 100 == 2,
        r matches Ok(had) ==> had == body,
        r matches Err(e) ==> (e is Unauthorized <==> status == 401),
        r matches Err(crate::error::Error::Unauthorized { endpoint: shown, resource_metadata })
            ==> shown@ == crate::endpoint::redacted(endpoint) && (challenge matches Some(asked)
            ==> resource_metadata == asked.resource_metadata) && (challenge is None
            ==> resource_metadata is None),
        r matches Err(e) ==> (!(e is Unauthorized) ==> (e matches crate::error::Error::Http {
            endpoint: shown,
            status: code,
            body: kept,
        } && shown@ == crate::endpoint::redacted(endpoint) && code == status && kept == body)),
{
}

/// Of several attributes of one name the first counts, and there is none exactly
/// where no attribute has the name.
pub proof fn the_first_attribute_of_a_name_counts(parts: Seq<Seq<char>>, name: Seq<char>)
    ensures
        match super::headers::attribute(parts, name) {
            Some(value) => exists|at: int|
                0 <= at < parts.len() && super::headers::part_is(#[trigger] parts[at], name)
                    && value == super::headers::part_value(parts[at]) && forall|i: int|
                    0 <= i < at ==> !super::headers::part_is(#[trigger] parts[i], name),
            None => forall|i: int|
                0 <= i < parts.len() ==> !super::headers::part_is(#[trigger] parts[i], name),
        },
    decreases parts.len(),
{
    if parts.len() > 0 {
        let rest = parts.drop_first();
        if super::headers::part_is(parts[0], name) {
        } else {
            the_first_attribute_of_a_name_counts(rest, name);
            match super::headers::attribute(rest, name) {
                Some(value) => {
                    let at = choose|at: int|
                        0 <= at < rest.len() && super::headers::part_is(#[trigger] rest[at], name)
                            && value == super::headers::part_value(rest[at]) && forall|i: int|
                            0 <= i < at ==> !super::headers::part_is(#[trigger] rest[i], name);
                    assert(parts[at + 1] == rest[at]);
                    assert forall|i: int| 0 <= i < at + 1 implies !super::headers::part_is(
                        #[trigger] parts[i],
                        name,
                    ) by {
                        if i > 0 {
                            assert(parts[i] == rest[i - 1]);
                        }
                    }
                },
                None => {
                    assert forall|i: int| 0 <= i < parts.len() implies !super::headers::part_is(
                        #[trigger] parts[i],
                        name,
                    ) by {
                        if i > 0 {
                            assert(parts[i] == rest[i - 1]);
                        }
                    }
                },
            }
        }
    }
}

/// An event says what its frame says: its identifier, its type, and its payload
/// decoded, each where the frame has one.
pub proof fn an_event_says_what_its_frame_says(frame: FrameView, event: super::sse::SseEvent)
    requires
        super::sse::event_of(frame, event),
    ensures
        frame.id is Some <==> event.id is Some,
        event.id matches Some(id) ==> frame.id == Some(id@),
        frame.event is Some <==> event.event is Some,
        event.event matches Some(kind) ==> frame.event == Some(kind@),
        frame.data is Some <==> event.data is Some,
        event.data matches Some(value) ==> (frame.data matches Some(text)
            && crate::outside::json_decoded(text) == Ok::<serde_json::Value, Seq<char>>(value)),
{
}

/// A challenge that is a scheme alone is read as that scheme, and nothing is
/// read of a header that is blank or not there.
pub proof fn a_bare_challenge_is_its_scheme(
    scheme: Seq<char>,
    r: Option<crate::error::McpAuthChallenge>,
    none: Option<crate::error::McpAuthChallenge>,
)
    requires
        scheme.len() > 0,
        forall|i: int| 0 <= i < scheme.len() ==> !crate::text::white_space(#[trigger] scheme[i]),
        super::headers::challenge_read(Some(scheme), r),
        super::headers::challenge_read(None, none),
    ensures
        r matches Some(challenge) && challenge.scheme@ == scheme && challenge.realm is None
            && challenge.resource_metadata is None,
        none is None,
{
    lemma_trimmed_whole(scheme);
    crate::text::blank_means_all_white_space(scheme);
    assert(!crate::text::white_space(scheme[0]));
    lemma_whole_scheme(scheme);
    let empty = scheme.subrange(scheme.len() as int, scheme.len() as int);
    assert(empty =~= Seq::<char>::empty());
    assert(scheme.subrange(0, scheme.len() as int) =~= scheme);
    let parts = super::headers::parts(empty);
    assert(parts =~= seq![Seq::<char>::empty()]);
    assert(super::headers::equals_at(parts[0]) == 0);
    assert(parts.drop_first() =~= Seq::<Seq<char>>::empty());
    assert(super::headers::attribute(parts.drop_first(), "realm"@) is None);
    assert(super::headers::attribute(parts.drop_first(), "resource_metadata"@) is None);
}

proof fn lemma_whole_scheme(scheme: Seq<char>)
    requires
        forall|i: int| 0 <= i < scheme.len() ==> !crate::text::white_space(#[trigger] scheme[i]),
    ensures
        super::headers::scheme_len(scheme) == scheme.len(),
    decreases scheme.len(),
{
    if scheme.len() > 0 {
        let shorter = scheme.drop_first();
        assert forall|i: int| 0 <= i < shorter.len() implies !crate::text::white_space(
            #[trigger] shorter[i],
        ) by {
            assert(shorter[i] == scheme[i + 1]);
        }
        lemma_whole_scheme(shorter);
    }
}

} // verus!
