//! Event streams.
//!
//! A stream is a sequence of lines, and a blank line ends a frame. A frame
//! whose blank line has not arrived is never read: its payload may be cut off
//! in the middle.
use vstd::prelude::*;

use crate::error::Error;
use crate::outside::decode_json;
use crate::text::{chars_of, same_text, text2, text_of};

verus! {

/// One event of a stream.
#[derive(Debug, Clone, PartialEq)]
pub struct SseEvent {
    /// The event's identifier.
    pub id: Option<String>,
    /// The event's type.
    pub event: Option<String>,
    /// The event's payload.
    pub data: Option<serde_json::Value>,
}

/// One frame of a stream, its payload not yet decoded.
#[derive(Debug, PartialEq, Eq)]
pub struct SseFrame {
    /// What the last `id` line says.
    pub id: Option<String>,
    /// What the last `event` line says.
    pub event: Option<String>,
    /// What the `data` lines say, joined by newlines.
    pub data: Option<String>,
}

/// What a frame says.
pub struct FrameView {
    /// What the last `id` line says.
    pub id: Option<Seq<char>>,
    /// What the last `event` line says.
    pub event: Option<Seq<char>>,
    /// What the `data` lines say, joined by newlines.
    pub data: Option<Seq<char>>,
}

impl View for SseFrame {
    type V = FrameView;

    open spec fn view(&self) -> FrameView {
        FrameView {
            id: crate::text::opt_text(self.id),
            event: crate::text::opt_text(self.event),
            data: crate::text::opt_text(self.data),
        }
    }
}

/// What a list of frames says.
pub open spec fn frames_said(frames: Seq<SseFrame>) -> Seq<FrameView> {
    frames.map_values(|frame: SseFrame| frame@)
}

/// A line without the carriage return that may stand before its newline.
pub open spec fn without_return(line: Seq<char>) -> Seq<char> {
    if line.len() > 0 && line.last() == '\r' {
        line.drop_last()
    } else {
        line
    }
}

/// What has arrived of the line that is not yet ended.
pub open spec fn open_line(s: Seq<char>) -> Seq<char>
    decreases s.len(),
{
    if s.len() == 0 || s.last() == '\n' {
        Seq::empty()
    } else {
        open_line(s.drop_last()).push(s.last())
    }
}

/// The lines that have ended.
pub open spec fn lines(s: Seq<char>) -> Seq<Seq<char>>
    decreases s.len(),
{
    if s.len() == 0 {
        Seq::empty()
    } else if s.last() == '\n' {
        lines(s.drop_last()).push(without_return(open_line(s.drop_last())))
    } else {
        lines(s.drop_last())
    }
}

/// Where a line's first colon stands; its length where it has none.
pub open spec fn colon_at(line: Seq<char>) -> int
    decreases line.len(),
{
    if line.len() == 0 || line[0] == ':' {
        0
    } else {
        1 + colon_at(line.drop_first())
    }
}

/// The field that a line names.
pub open spec fn field_name(line: Seq<char>) -> Seq<char> {
    line.subrange(0, colon_at(line))
}

/// What a line says of its field: what follows the colon, without the one
/// space that may stand there.
pub open spec fn field_value(line: Seq<char>) -> Seq<char> {
    let at = colon_at(line);
    if at >= line.len() {
        Seq::empty()
    } else if at + 1 < line.len() && line[at + 1] == ' ' {
        line.subrange(at + 2, line.len() as int)
    } else {
        line.subrange(at + 1, line.len() as int)
    }
}

/// A frame that says nothing yet.
pub open spec fn empty_frame() -> FrameView {
    FrameView { id: None, event: None, data: None }
}

/// A frame with one more line. A comment, whose field has no name, and a field
/// that is not known say nothing.
pub open spec fn with_line(frame: FrameView, line: Seq<char>) -> FrameView {
    let name = field_name(line);
    let value = field_value(line);
    if name == "data"@ {
        FrameView {
            data: Some(
                match frame.data {
                    Some(before) => before + "\n"@ + value,
                    None => value,
                },
            ),
            ..frame
        }
    } else if name == "id"@ {
        FrameView { id: Some(value), ..frame }
    } else if name == "event"@ {
        FrameView { event: Some(value), ..frame }
    } else {
        frame
    }
}

/// A frame once it has ended: a payload with nothing in it is none.
pub open spec fn ended(frame: FrameView) -> FrameView {
    FrameView {
        data: match frame.data {
            Some(text) => if text.len() == 0 {
                None
            } else {
                Some(text)
            },
            None => None,
        },
        ..frame
    }
}

/// The frame that is not yet ended.
pub open spec fn open_frame(lines: Seq<Seq<char>>) -> FrameView
    decreases lines.len(),
{
    if lines.len() == 0 || lines.last().len() == 0 {
        empty_frame()
    } else {
        with_line(open_frame(lines.drop_last()), lines.last())
    }
}

/// The frames that have ended, in order. One that says nothing, such as a
/// keepalive comment, is no frame.
pub open spec fn frames(lines: Seq<Seq<char>>) -> Seq<FrameView>
    decreases lines.len(),
{
    if lines.len() == 0 {
        Seq::empty()
    } else {
        let before = frames(lines.drop_last());
        let open = ended(open_frame(lines.drop_last()));
        if lines.last().len() == 0 && open != empty_frame() {
            before.push(open)
        } else {
            before
        }
    }
}

/// The frames of a stream, as far as it has arrived.
pub open spec fn frames_of(s: Seq<char>) -> Seq<FrameView> {
    frames(lines(s))
}

/// The payload of the first frame that has one.
pub open spec fn first_data(frames: Seq<FrameView>) -> Option<Seq<char>>
    decreases frames.len(),
{
    if frames.len() == 0 {
        None
    } else if frames[0].data is Some {
        frames[0].data
    } else {
        first_data(frames.drop_first())
    }
}

/// The lines of a stream that goes on begin with the lines that have arrived.
proof fn lemma_lines_grow(s: Seq<char>, more: Seq<char>)
    ensures
        lines(s).is_prefix_of(lines(s + more)),
    decreases more.len(),
{
    if more.len() == 0 {
        assert(s + more =~= s);
        assert(lines(s) =~= lines(s).subrange(0, lines(s).len() as int));
    } else {
        let whole = s + more;
        lemma_lines_grow(s, more.drop_last());
        assert(whole.drop_last() =~= s + more.drop_last());
        let shorter = lines(s + more.drop_last());
        assert(lines(s) =~= lines(whole).subrange(0, lines(s).len() as int));
    }
}

/// The frames of lines that go on begin with the frames that have ended.
proof fn lemma_frames_grow(first: Seq<Seq<char>>, more: Seq<Seq<char>>)
    ensures
        frames(first).is_prefix_of(frames(first + more)),
    decreases more.len(),
{
    if more.len() == 0 {
        assert(first + more =~= first);
        assert(frames(first) =~= frames(first).subrange(0, frames(first).len() as int));
    } else {
        let whole = first + more;
        lemma_frames_grow(first, more.drop_last());
        assert(whole.drop_last() =~= first + more.drop_last());
        let shorter = frames(first + more.drop_last());
        assert(frames(first) =~= frames(whole).subrange(0, frames(first).len() as int));
    }
}

/// What has been read of a stream stands: whatever arrives after it, the
/// frames that have ended stay as they are, and others only come behind them.
pub proof fn more_bytes_change_no_frame(s: Seq<char>, more: Seq<char>)
    ensures
        frames_of(s).is_prefix_of(frames_of(s + more)),
{
    lemma_lines_grow(s, more);
    let early = lines(s);
    let late = lines(s + more);
    assert(late =~= early + late.subrange(early.len() as int, late.len() as int));
    lemma_frames_grow(early, late.subrange(early.len() as int, late.len() as int));
}

proof fn lemma_first_data(early: Seq<FrameView>, late: Seq<FrameView>)
    requires
        early.is_prefix_of(late),
        first_data(early) is Some,
    ensures
        first_data(late) == first_data(early),
    decreases early.len(),
{
    assert(early.len() > 0);
    assert(early[0] == late[0]);
    if early[0].data is None {
        assert(early.drop_first() =~= late.drop_first().subrange(
            0,
            early.drop_first().len() as int,
        ));
        lemma_first_data(early.drop_first(), late.drop_first());
    }
}

/// The first payload is had as soon as its frame has ended, and what arrives
/// after it does not change it. A server that holds its stream open does not
/// stall a call.
pub proof fn the_first_payload_does_not_wait(s: Seq<char>, more: Seq<char>)
    requires
        first_data(frames_of(s)) is Some,
    ensures
        first_data(frames_of(s + more)) == first_data(frames_of(s)),
{
    more_bytes_change_no_frame(s, more);
    lemma_first_data(frames_of(s), frames_of(s + more));
}

/// A frame whose blank line has not arrived is not read: what has arrived of
/// it, down to the last complete line, changes nothing.
pub proof fn an_open_frame_is_not_read(s: Seq<char>, more: Seq<char>)
    requires
        forall|i: int|
            lines(s).len() <= i < lines(s + more).len() ==> (#[trigger] lines(s + more)[i]).len()
                > 0,
    ensures
        frames_of(s + more) == frames_of(s),
{
    lemma_lines_grow(s, more);
    let early = lines(s);
    let late = lines(s + more);
    let tail = late.subrange(early.len() as int, late.len() as int);
    assert(late =~= early + tail);
    assert forall|i: int| 0 <= i < tail.len() implies (#[trigger] tail[i]).len() > 0 by {
        assert(tail[i] == late[early.len() + i]);
    }
    lemma_no_blank(early, tail);
}

proof fn lemma_no_blank(first: Seq<Seq<char>>, more: Seq<Seq<char>>)
    requires
        forall|i: int| 0 <= i < more.len() ==> (#[trigger] more[i]).len() > 0,
    ensures
        frames(first + more) == frames(first),
    decreases more.len(),
{
    if more.len() == 0 {
        assert(first + more =~= first);
    } else {
        let whole = first + more;
        assert(whole.drop_last() =~= first + more.drop_last());
        assert(whole.last() == more.last());
        assert forall|i: int| 0 <= i < more.drop_last().len() implies (
        #[trigger] more.drop_last()[i]).len() > 0 by {
            assert(more.drop_last()[i] == more[i]);
        }
        lemma_no_blank(first, more.drop_last());
    }
}

/// Adds a line to a frame.
fn add_line(frame: SseFrame, line: &Vec<char>) -> (r: SseFrame)
    ensures
        r@ == with_line(frame@, line@),
{
    let mut at: usize = 0;
    proof {
        assert(line@.subrange(0, line@.len() as int) =~= line@);
    }
    while at < line.len() && line[at] != ':'
        invariant
            at <= line@.len(),
            colon_at(line@) == at + colon_at(line@.subrange(at as int, line@.len() as int)),
        decreases line@.len() - at,
    {
        proof {
            let rest = line@.subrange(at as int, line@.len() as int);
            assert(rest[0] == line@[at as int]);
            assert(rest.drop_first() =~= line@.subrange(at + 1, line@.len() as int));
        }
        at += 1;
    }
    proof {
        let rest = line@.subrange(at as int, line@.len() as int);
        if at < line@.len() {
            assert(rest[0] == line@[at as int]);
        }
        assert(colon_at(line@) == at);
    }
    let name = text_of(line, 0, at);
    let from: usize = if at >= line.len() {
        at
    } else if line.len() - at > 1 && line[at + 1] == ' ' {
        at + 2
    } else {
        at + 1
    };
    let value = text_of(line, from, line.len());
    proof {
        assert(value@ =~= field_value(line@));
    }
    if same_text(name.as_str(), "data") {
        let data = match frame.data {
            Some(before) => {
                let mut joined = before;
                joined.push_str("\n");
                joined.push_str(value.as_str());
                joined
            },
            None => value,
        };
        SseFrame { id: frame.id, event: frame.event, data: Some(data) }
    } else if same_text(name.as_str(), "id") {
        SseFrame { id: Some(value), event: frame.event, data: frame.data }
    } else if same_text(name.as_str(), "event") {
        SseFrame { id: frame.id, event: Some(value), data: frame.data }
    } else {
        frame
    }
}

/// Ends a frame.
fn end_frame(frame: SseFrame) -> (r: SseFrame)
    ensures
        r@ == ended(frame@),
{
    let data = match frame.data {
        Some(text) => if text.as_str().unicode_len() == 0 {
            None
        } else {
            Some(text)
        },
        None => None,
    };
    SseFrame { id: frame.id, event: frame.event, data }
}

/// A frame that says nothing yet.
fn new_frame() -> (r: SseFrame)
    ensures
        r@ == empty_frame(),
{
    SseFrame { id: None, event: None, data: None }
}

/// The frames of a stream that have ended, in order.
pub fn sse_frames(stream: &str) -> (r: Vec<SseFrame>)
    ensures
        frames_said(r@) == frames_of(stream@),
{
    let chars = chars_of(stream);
    let mut done: Vec<SseFrame> = Vec::new();
    let mut open = new_frame();
    let mut line: Vec<char> = Vec::new();
    let mut at: usize = 0;
    proof {
        assert(chars@.take(0) =~= Seq::empty());
        assert(frames_said(done@) =~= Seq::<FrameView>::empty());
    }
    while at < chars.len()
        invariant
            at <= chars@.len(),
            line@ == open_line(chars@.take(at as int)),
            open@ == open_frame(lines(chars@.take(at as int))),
            frames_said(done@) == frames_of(chars@.take(at as int)),
        decreases chars@.len() - at,
    {
        let c = chars[at];
        let ghost read = chars@.take(at + 1);
        proof {
            assert(read.last() == c);
            assert(read.drop_last() =~= chars@.take(at as int));
        }
        if c == '\n' {
            if line.len() > 0 && line[line.len() - 1] == '\r' {
                line.pop();
            }
            let ghost before = lines(chars@.take(at as int));
            proof {
                assert(line@ =~= without_return(open_line(chars@.take(at as int))));
                assert(lines(read) == before.push(line@));
                assert(lines(read).drop_last() =~= before);
            }
            if line.len() == 0 {
                let frame = end_frame(open);
                if frame.id.is_some() || frame.event.is_some() || frame.data.is_some() {
                    let ghost earlier = done@;
                    proof {
                        assert(frame@ != empty_frame());
                    }
                    done.push(frame);
                    proof {
                        assert(frames_said(done@) =~= frames_said(earlier).push(frame@));
                    }
                } else {
                    proof {
                        assert(frame@ == empty_frame());
                    }
                }
                open = new_frame();
            } else {
                open = add_line(open, &line);
            }
            line = Vec::new();
            proof {
                assert(line@ =~= open_line(read));
            }
        } else {
            line.push(c);
        }
        at += 1;
    }
    proof {
        assert(chars@.take(at as int) =~= chars@);
    }
    done
}

/// What is said of a payload that does not decode.
pub open spec fn undecodable(error: Error, detail: Seq<char>) -> bool {
    error matches Error::MalformedResponse { detail: said } && said@
        == "an event carries invalid json: "@ + detail
}

/// The event that a frame becomes, given what its payload decodes to.
pub fn event_from(
    frame: SseFrame,
    decoded: Option<Result<serde_json::Value, String>>,
) -> (r: Result<SseEvent, Error>)
    ensures
        match decoded {
            None => r == Ok::<SseEvent, Error>(
                SseEvent { id: frame.id, event: frame.event, data: None },
            ),
            Some(Ok(value)) => r == Ok::<SseEvent, Error>(
                SseEvent { id: frame.id, event: frame.event, data: Some(value) },
            ),
            Some(Err(detail)) => r matches Err(e) && undecodable(e, detail@),
        },
{
    match decoded {
        None => Ok(SseEvent { id: frame.id, event: frame.event, data: None }),
        Some(Ok(value)) => Ok(SseEvent { id: frame.id, event: frame.event, data: Some(value) }),
        Some(Err(detail)) => Err(
            Error::malformed(text2("an event carries invalid json: ", detail.as_str())),
        ),
    }
}

/// Whether an event is what a frame becomes.
pub open spec fn event_of(frame: FrameView, event: SseEvent) -> bool {
    &&& crate::text::opt_text(event.id) == frame.id
    &&& crate::text::opt_text(event.event) == frame.event
    &&& match frame.data {
        None => event.data is None,
        Some(text) => event.data matches Some(value) && crate::outside::json_decoded(text) == Ok::<
            serde_json::Value,
            Seq<char>,
        >(value),
    }
}

/// Whether a frame's payload does not decode.
pub open spec fn frame_is_bad(frame: FrameView) -> bool {
    frame.data matches Some(text) && crate::outside::json_decoded(text) is Err
}

/// Reads every event of a stream that has ended. The first payload that does
/// not decode is an error.
pub fn parse_sse_events(body: &str) -> (r: Result<Vec<SseEvent>, Error>)
    ensures
        match r {
            Ok(events) => events@.len() == frames_of(body@).len() && forall|i: int|
                0 <= i < events@.len() ==> event_of(frames_of(body@)[i], #[trigger] events@[i]),
            Err(e) => exists|i: int|
                0 <= i < frames_of(body@).len() && (#[trigger] frames_of(body@)[i]).data is Some && (
                crate::outside::json_decoded(frames_of(body@)[i].data->Some_0) matches Err(
                    detail,
                ) && undecodable(e, detail)) && forall|j: int|
                    0 <= j < i ==> !frame_is_bad(#[trigger] frames_of(body@)[j]),
        },
        r is Err <==> exists|i: int|
            0 <= i < frames_of(body@).len() && frame_is_bad(#[trigger] frames_of(body@)[i]),
{
    let mut pending = sse_frames(body);
    let ghost all = frames_of(body@);
    let ghost said = pending@;
    let mut events: Vec<SseEvent> = Vec::new();
    while pending.len() > 0
        invariant
            all == frames_of(body@),
            frames_said(said) == all,
            events@.len() + pending@.len() == all.len(),
            pending@ == said.subrange(events@.len() as int, said.len() as int),
            forall|i: int|
                0 <= i < events@.len() ==> event_of(all[i], #[trigger] events@[i])
                    && !frame_is_bad(all[i]),
        decreases pending@.len(),
    {
        let ghost at = events@.len() as int;
        proof {
            assert(pending@[0] == said[at]);
            assert(all[at] == said[at]@);
        }
        let frame = pending.remove(0);
        proof {
            assert(pending@ =~= said.subrange(at + 1, said.len() as int));
        }
        let decoded = match &frame.data {
            Some(text) => Some(decode_json(text.as_str())),
            None => None,
        };
        match event_from(frame, decoded) {
            Ok(event) => {
                proof {
                    assert(event_of(all[at], event));
                }
                events.push(event);
            },
            Err(e) => {
                proof {
                    assert(frame_is_bad(all[at]));
                    assert forall|j: int| 0 <= j < at implies !frame_is_bad(
                        #[trigger] all[j],
                    ) by {
                        assert(event_of(all[j], events@[j]));
                    }
                }
                return Err(e);
            },
        }
    }
    proof {
        assert forall|i: int| 0 <= i < all.len() implies !frame_is_bad(#[trigger] all[i]) by {
            assert(event_of(all[i], events@[i]));
        }
    }
    Ok(events)
}

/// Reads the first payload of a stream that may go on, once its frame has
/// ended.
pub fn first_complete_sse_data(buffer: &str) -> (r: Result<Option<serde_json::Value>, Error>)
    ensures
        match first_data(frames_of(buffer@)) {
            None => r == Ok::<Option<serde_json::Value>, Error>(None),
            Some(text) => match crate::outside::json_decoded(text) {
                Ok(value) => r == Ok::<Option<serde_json::Value>, Error>(Some(value)),
                Err(detail) => r matches Err(e) && undecodable(e, detail),
            },
        },
{
    let found = sse_frames(buffer);
    let ghost all = frames_of(buffer@);
    let mut at: usize = 0;
    proof {
        assert(all.subrange(0, all.len() as int) =~= all);
    }
    while at < found.len()
        invariant
            all == frames_of(buffer@),
            frames_said(found@) == all,
            at <= found@.len(),
            first_data(all) == first_data(all.subrange(at as int, all.len() as int)),
        decreases found@.len() - at,
    {
        proof {
            assert(all[at as int] == found@[at as int]@);
            assert(all.subrange(at as int, all.len() as int).drop_first() =~= all.subrange(
                at + 1,
                all.len() as int,
            ));
        }
        if let Some(text) = &found[at].data {
            let decoded = decode_json(text.as_str());
            return match event_from(new_frame(), Some(decoded)) {
                Ok(event) => Ok(event.data),
                Err(e) => Err(e),
            };
        }
        at += 1;
    }
    Ok(None)
}

/// The payload of the first event that has one.
pub open spec fn first_event_data(events: Seq<SseEvent>) -> Option<serde_json::Value>
    decreases events.len(),
{
    if events.len() == 0 {
        None
    } else if events[0].data is Some {
        events[0].data
    } else {
        first_event_data(events.drop_first())
    }
}

/// Reading a stream's first payload and reading all of its events agree: the
/// payload is that of the first event that has one.
pub proof fn the_first_payload_is_the_first_events(frames: Seq<FrameView>, events: Seq<SseEvent>)
    requires
        events.len() == frames.len(),
        forall|i: int| 0 <= i < events.len() ==> event_of(frames[i], #[trigger] events[i]),
    ensures
        match first_data(frames) {
            None => first_event_data(events) is None,
            Some(text) => first_event_data(events) matches Some(value)
                && crate::outside::json_decoded(text) == Ok::<serde_json::Value, Seq<char>>(value),
        },
    decreases frames.len(),
{
    if frames.len() > 0 {
        assert(event_of(frames[0], events[0]));
        if frames[0].data is None {
            assert forall|i: int| 0 <= i < events.drop_first().len() implies event_of(
                frames.drop_first()[i],
                #[trigger] events.drop_first()[i],
            ) by {
                assert(events.drop_first()[i] == events[i + 1]);
            }
            the_first_payload_is_the_first_events(frames.drop_first(), events.drop_first());
        }
    }
}

} // verus!
