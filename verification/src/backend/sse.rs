//! Server-sent event framing.
//!
//! A backend writes events, but a socket delivers arbitrary runs of bytes: one
//! payload may arrive across several reads, split inside a key, a value or a
//! multi-byte character. The decoder holds what is incomplete, so nothing above
//! it ever sees a network chunk. Where the reads happen to be cut makes no
//! difference to the events that come out ([`split_makes_no_difference`],
//! [`any_chunking_gives_the_same_events`]).
//!
//! Comments, field lines, the `data` field and blank-line dispatch are
//! understood; other fields are read and discarded. An event stream is UTF-8, so a
//! line that is not is a failure, whether or not it carries a payload.

use vstd::prelude::*;
use vstd::string::*;
use vstd::utf8::*;

use crate::text::{decode_text, texts, utf8_fault};

verus! {

pub const LF: u8 = 10;

pub const CR: u8 = 13;

pub const COLON: u8 = 58;

pub const SPACE: u8 = 32;

/// What a decoder holds between reads: bytes of an unfinished line, and the data
/// lines of an unfinished event.
#[verifier::ext_equal]
pub struct SseState {
    pub buffer: Seq<u8>,
    pub data: Seq<char>,
    pub has_data: bool,
}

/// Everything that came of working through the complete lines of a state.
#[verifier::ext_equal]
pub struct SseRun {
    pub state: SseState,
    pub events: Seq<Seq<char>>,
    pub error: Option<Seq<char>>,
}

/// The position of the first byte that satisfies `p`, or the length.
pub open spec fn first_where(bytes: Seq<u8>, p: spec_fn(u8) -> bool) -> int
    decreases bytes.len(),
{
    if bytes.len() == 0 || p(bytes[0]) {
        0
    } else {
        1 + first_where(bytes.drop_first(), p)
    }
}

pub open spec fn ends_line(byte: u8) -> bool {
    byte == LF || byte == CR
}

/// Where the first line ends: the position of its first terminator byte, or the
/// length of the buffer.
pub open spec fn line_end(bytes: Seq<u8>) -> int {
    first_where(bytes, |b: u8| ends_line(b))
}

/// How many bytes the first complete line and its terminator take. A carriage
/// return that is the last byte is not yet a terminator, since a line feed may
/// follow in the next read.
pub open spec fn line_extent(bytes: Seq<u8>) -> Option<int> {
    let end = line_end(bytes);
    if end >= bytes.len() {
        None
    } else if bytes[end] == LF {
        Some(end + 1)
    } else if end + 1 >= bytes.len() {
        None
    } else if bytes[end + 1] == LF {
        Some(end + 2)
    } else {
        Some(end + 1)
    }
}

/// The name before the first colon of a line, or the whole line.
pub open spec fn field_name(line: Seq<u8>) -> Seq<u8> {
    line.take(first_where(line, |b: u8| b == COLON))
}

/// What follows the first colon, less one leading space.
pub open spec fn field_value(line: Seq<u8>) -> Seq<u8> {
    let colon = first_where(line, |b: u8| b == COLON);
    if colon >= line.len() {
        Seq::empty()
    } else if colon + 1 < line.len() && line[colon + 1] == SPACE {
        line.skip(colon + 2)
    } else {
        line.skip(colon + 1)
    }
}

/// `data`, the one field that carries a payload.
pub open spec fn data_field() -> Seq<u8> {
    seq![100u8, 97, 116, 97]
}

/// Whether a line carries a payload.
pub open spec fn is_data_line(line: Seq<u8>) -> bool {
    field_name(line) == data_field()
}

/// The message for a line that is not UTF-8. The fault of a data line is placed in
/// its value.
pub open spec fn invalid_line_message(line: Seq<u8>) -> Seq<char> {
    if is_data_line(line) {
        "a data line was not valid UTF-8: "@ + utf8_fault(field_value(line))
    } else {
        "a line was not valid UTF-8: "@ + utf8_fault(line)
    }
}

/// What one line does: the new data, whether an event is under way, the event it
/// dispatched and the error it gave.
pub open spec fn apply_line(data: Seq<char>, has_data: bool, line: Seq<u8>) -> (
    Seq<char>,
    bool,
    Option<Seq<char>>,
    Option<Seq<char>>,
) {
    if line.len() == 0 {
        if has_data {
            (Seq::empty(), false, Some(data), None)
        } else {
            (data, false, None, None)
        }
    } else if !valid_utf8(line) {
        (data, has_data, None, Some(invalid_line_message(line)))
    } else if !is_data_line(line) {
        (data, has_data, None, None)
    } else if has_data {
        (data.push('\n') + decode_utf8(field_value(line)), true, None, None)
    } else {
        (data + decode_utf8(field_value(line)), true, None, None)
    }
}

/// The state after its first complete line is removed and applied.
pub open spec fn after_line(s: SseState, extent: int) -> SseState {
    let (data, has_data, _, _) = apply_line(s.data, s.has_data, s.buffer.take(line_end(s.buffer)));
    SseState { buffer: s.buffer.skip(extent), data, has_data }
}

/// Works through every complete line of a state, stopping at the first error.
pub open spec fn run(s: SseState) -> SseRun
    decreases s.buffer.len(),
{
    match line_extent(s.buffer) {
        None => SseRun { state: s, events: Seq::empty(), error: None },
        Some(extent) => {
            let (_, _, event, error) = apply_line(
                s.data,
                s.has_data,
                s.buffer.take(line_end(s.buffer)),
            );
            let next = after_line(s, extent);
            if error is Some {
                SseRun { state: next, events: Seq::empty(), error }
            } else if 0 < extent <= s.buffer.len() {
                let rest = run(next);
                match event {
                    Some(e) => SseRun { events: seq![e] + rest.events, ..rest },
                    None => rest,
                }
            } else {
                SseRun { state: s, events: Seq::empty(), error: None }
            }
        },
    }
}

/// A state with more bytes received.
pub open spec fn feed(s: SseState, chunk: Seq<u8>) -> SseState {
    SseState { buffer: s.buffer + chunk, ..s }
}

/// Accumulates bytes and yields the payload of each complete event.
#[derive(Debug)]
pub struct SseDecoder {
    buffer: Vec<u8>,
    data: String,
    has_data: bool,
}

impl View for SseDecoder {
    type V = SseState;

    closed spec fn view(&self) -> SseState {
        SseState { buffer: self.buffer@, data: self.data@, has_data: self.has_data }
    }
}

impl Default for SseDecoder {
    fn default() -> (decoder: SseDecoder)
        ensures
            decoder@ == (SseState { buffer: Seq::empty(), data: Seq::empty(), has_data: false }),
    {
        SseDecoder { buffer: Vec::new(), data: String::new(), has_data: false }
    }
}

/// Whether bytes are UTF-8 does not depend on ASCII bytes that stand before them.
proof fn ascii_prefix_is_text(bytes: Seq<u8>, n: int)
    requires
        0 <= n <= bytes.len(),
        forall|i: int| 0 <= i < n ==> #[trigger] bytes[i] < 0x80,
    ensures
        valid_utf8(bytes) == valid_utf8(bytes.skip(n)),
    decreases n,
{
    if n == 0 {
        assert(bytes.skip(0) =~= bytes);
    } else {
        let rest = bytes.skip(1);
        let first = bytes[0];
        assert(first < 0x80);
        assert(first & 0x7f <= 0x7f) by (bit_vector);
        assert(pop_first_scalar(bytes) =~= rest);
        assert(valid_first_scalar(bytes));
        assert forall|i: int| 0 <= i < n - 1 implies #[trigger] rest[i] < 0x80 by {
            assert(rest[i] == bytes[i + 1]);
        }
        ascii_prefix_is_text(rest, n - 1);
        assert(rest.skip(n - 1) =~= bytes.skip(n));
    }
}

/// A data line is UTF-8 exactly when its value is.
proof fn data_line_is_text(line: Seq<u8>)
    requires
        is_data_line(line),
    ensures
        valid_utf8(line) == valid_utf8(field_value(line)),
{
    let colon = first_where(line, |b: u8| b == COLON);
    first_where_bounds(line, |b: u8| b == COLON);
    assert(line.take(colon).len() == 4);
    let from = if colon >= line.len() {
        line.len() as int
    } else if colon + 1 < line.len() && line[colon + 1] == SPACE {
        colon + 2
    } else {
        colon + 1
    };
    assert(field_value(line) =~= line.skip(from));
    assert forall|i: int| 0 <= i < from implies #[trigger] line[i] < 0x80 by {
        if i < 4 {
            assert(line[i] == data_field()[i]);
        }
    }
    ascii_prefix_is_text(line, from);
}

proof fn first_where_bounds(bytes: Seq<u8>, p: spec_fn(u8) -> bool)
    ensures
        0 <= first_where(bytes, p) <= bytes.len(),
        first_where(bytes, p) < bytes.len() ==> p(bytes[first_where(bytes, p)]),
        forall|i: int| 0 <= i < first_where(bytes, p) ==> !p(#[trigger] bytes[i]),
    decreases bytes.len(),
{
    if bytes.len() > 0 && !p(bytes[0]) {
        let rest = bytes.drop_first();
        first_where_bounds(rest, p);
        assert forall|i: int| 0 <= i < first_where(bytes, p) implies !p(#[trigger] bytes[i]) by {
            if i > 0 {
                assert(bytes[i] == rest[i - 1]);
            }
        }
    }
}

proof fn first_where_is(bytes: Seq<u8>, p: spec_fn(u8) -> bool, at: int)
    requires
        0 <= at <= bytes.len(),
        at < bytes.len() ==> p(bytes[at]),
        forall|i: int| 0 <= i < at ==> !p(#[trigger] bytes[i]),
    ensures
        first_where(bytes, p) == at,
{
    first_where_bounds(bytes, p);
    let f = first_where(bytes, p);
    if f < at {
        assert(!p(bytes[f]));
    } else if at < f {
        assert(!p(bytes[at]));
    }
}

/// A complete line stays what it is when more bytes arrive.
proof fn line_survives(bytes: Seq<u8>, more: Seq<u8>)
    requires
        line_extent(bytes) is Some,
    ensures
        line_end(bytes + more) == line_end(bytes),
        line_extent(bytes + more) == line_extent(bytes),
        0 < line_extent(bytes)->0 <= bytes.len(),
        0 <= line_end(bytes) < bytes.len(),
{
    let p = |b: u8| ends_line(b);
    first_where_bounds(bytes, p);
    let both = bytes + more;
    assert forall|i: int| 0 <= i < line_end(bytes) implies !p(#[trigger] both[i]) by {
        assert(both[i] == bytes[i]);
    }
    first_where_is(both, p, line_end(bytes));
}

/// Bytes that arrive later do not change what the complete lines already gave.
proof fn run_then_more(s: SseState, more: Seq<u8>)
    ensures
        ({
            let first = run(s);
            let whole = run(feed(s, more));
            if first.error is Some {
                whole == (SseRun { state: feed(first.state, more), ..first })
            } else {
                let rest = run(feed(first.state, more));
                whole == (SseRun { events: first.events + rest.events, ..rest })
            }
        }),
    decreases s.buffer.len(),
{
    let first = run(s);
    let whole = run(feed(s, more));
    match line_extent(s.buffer) {
        None => {
            let rest = run(feed(s, more));
            assert(first.events + rest.events =~= rest.events);
        },
        Some(extent) => {
            line_survives(s.buffer, more);
            let line = s.buffer.take(line_end(s.buffer));
            assert((s.buffer + more).take(line_end(s.buffer)) =~= line);
            let next = after_line(s, extent);
            assert((s.buffer + more).skip(extent) =~= s.buffer.skip(extent) + more);
            assert(after_line(feed(s, more), extent) == feed(next, more));
            let (_, _, event, error) = apply_line(s.data, s.has_data, line);
            if error is None {
                run_then_more(next, more);
                let inner = run(next);
                let tail = run(feed(inner.state, more));
                if inner.error is None {
                    match event {
                        Some(e) => {
                            assert(seq![e] + (inner.events + tail.events) =~= (seq![e]
                                + inner.events) + tail.events);
                        },
                        None => {},
                    }
                }
            }
        },
    }
}

/// Two reads give the same events as one read of both: if the first read fails,
/// the longer read fails in the same way, and otherwise the events of the two
/// follow one another and the decoder ends in the same state.
pub proof fn split_makes_no_difference(s: SseState, a: Seq<u8>, b: Seq<u8>)
    ensures
        ({
            let first = run(feed(s, a));
            let second = run(feed(first.state, b));
            let whole = run(feed(s, a + b));
            if first.error is Some {
                whole.error == first.error && whole.events == first.events
            } else {
                whole.state == second.state && whole.error == second.error && whole.events
                    == first.events + second.events
            }
        }),
{
    run_then_more(feed(s, a), b);
    assert(feed(feed(s, a), b).buffer =~= feed(s, a + b).buffer);
}

/// The chunks of a stream, one after another.
pub open spec fn joined(chunks: Seq<Seq<u8>>) -> Seq<u8>
    decreases chunks.len(),
{
    if chunks.len() == 0 {
        Seq::empty()
    } else {
        joined(chunks.drop_last()) + chunks.last()
    }
}

/// What a decoder has given after reading the chunks in turn and stopping at the
/// first failure.
pub open spec fn run_chunks(s: SseState, chunks: Seq<Seq<u8>>) -> SseRun
    decreases chunks.len(),
{
    if chunks.len() == 0 {
        SseRun { state: s, events: Seq::empty(), error: None }
    } else {
        let before = run_chunks(s, chunks.drop_last());
        if before.error is Some {
            before
        } else {
            let last = run(feed(before.state, chunks.last()));
            SseRun { events: before.events + last.events, ..last }
        }
    }
}

/// However a stream is cut into reads, a decoder that holds no complete line yet
/// gives the events, and meets the failure, of reading it whole.
pub proof fn any_chunking_gives_the_same_events(s: SseState, chunks: Seq<Seq<u8>>)
    requires
        line_extent(s.buffer) is None,
    ensures
        run_chunks(s, chunks).events == run(feed(s, joined(chunks))).events,
        run_chunks(s, chunks).error == run(feed(s, joined(chunks))).error,
        run_chunks(s, chunks).error is None ==> run_chunks(s, chunks).state == run(
            feed(s, joined(chunks)),
        ).state,
    decreases chunks.len(),
{
    if chunks.len() == 0 {
        assert(feed(s, joined(chunks)) =~= s);
    } else {
        any_chunking_gives_the_same_events(s, chunks.drop_last());
        split_makes_no_difference(s, joined(chunks.drop_last()), chunks.last());
    }
}

// ---------------------------------------------------------------------------
// What is sent is what arrives.

/// Whether bytes hold no end of a line.
pub open spec fn in_one_line(bytes: Seq<u8>) -> bool {
    forall|i: int| 0 <= i < bytes.len() ==> #[trigger] bytes[i] != 10 && bytes[i] != 13
}

/// The end of a line: a line feed, with a carriage return before it or without.
pub open spec fn line_mark(crlf: bool) -> Seq<u8> {
    if crlf {
        seq![13u8, 10u8]
    } else {
        seq![10u8]
    }
}

/// The bytes of a `data` line.
pub open spec fn written_line(value: Seq<u8>, crlf: bool) -> Seq<u8> {
    seq![100u8, 97u8, 116u8, 97u8, 58u8, 32u8] + value + line_mark(crlf)
}

/// The bytes of the `data` lines of an event.
pub open spec fn written_lines(lines: Seq<Seq<u8>>, crlf: bool) -> Seq<u8>
    decreases lines.len(),
{
    if lines.len() == 0 {
        Seq::empty()
    } else {
        written_line(lines[0], crlf) + written_lines(lines.drop_first(), crlf)
    }
}

/// The bytes of an event: its lines and a blank one.
pub open spec fn written_event(lines: Seq<Seq<u8>>, crlf: bool) -> Seq<u8> {
    written_lines(lines, crlf) + line_mark(crlf)
}

/// The bytes of events, one after another.
pub open spec fn written_events(events: Seq<Seq<Seq<u8>>>, crlf: bool) -> Seq<u8>
    decreases events.len(),
{
    if events.len() == 0 {
        Seq::empty()
    } else {
        written_event(events[0], crlf) + written_events(events.drop_first(), crlf)
    }
}

/// The text of an event: its lines, with a line feed between them.
pub open spec fn event_text(lines: Seq<Seq<u8>>) -> Seq<char>
    decreases lines.len(),
{
    if lines.len() == 0 {
        Seq::empty()
    } else if lines.len() == 1 {
        decode_utf8(lines[0])
    } else {
        event_text(lines.drop_last()) + seq!['\n'] + decode_utf8(lines.last())
    }
}

/// Whether lines make up an event that can be sent: there is one, and each is UTF-8
/// without an end of a line.
pub open spec fn is_sendable(lines: Seq<Seq<u8>>) -> bool {
    &&& lines.len() > 0
    &&& forall|i: int|
        0 <= i < lines.len() ==> in_one_line(#[trigger] lines[i]) && valid_utf8(lines[i])
}

proof fn a_line_is_taken(line: Seq<u8>, crlf: bool, rest: Seq<u8>)
    requires
        in_one_line(line),
    ensures
        ({
            let bytes = line + line_mark(crlf) + rest;
            let extent = line.len() + line_mark(crlf).len();
            &&& line_end(bytes) == line.len()
            &&& line_extent(bytes) == Some(extent as int)
            &&& bytes.take(line.len() as int) == line
            &&& bytes.skip(extent as int) == rest
        }),
{
    let bytes = line + line_mark(crlf) + rest;
    let extent = line.len() + line_mark(crlf).len();
    let p = |b: u8| ends_line(b);
    assert(bytes[line.len() as int] == line_mark(crlf)[0]);
    assert forall|i: int| 0 <= i < line.len() implies !p(#[trigger] bytes[i]) by {
        assert(bytes[i] == line[i]);
    }
    first_where_is(bytes, p, line.len() as int);
    if crlf {
        assert(bytes[line.len() as int + 1] == line_mark(crlf)[1]);
    }
    assert(bytes.take(line.len() as int) =~= line);
    assert(bytes.skip(extent as int) =~= rest);
}

proof fn a_data_line_is_applied(
    value: Seq<u8>,
    crlf: bool,
    rest: Seq<u8>,
    data: Seq<char>,
    has_data: bool,
)
    requires
        in_one_line(value),
        valid_utf8(value),
    ensures
        run(SseState { buffer: written_line(value, crlf) + rest, data, has_data }) == run(
            SseState {
                buffer: rest,
                data: if has_data {
                    data + seq!['\n'] + decode_utf8(value)
                } else {
                    data + decode_utf8(value)
                },
                has_data: true,
            },
        ),
{
    let head = seq![100u8, 97u8, 116u8, 97u8, 58u8, 32u8];
    let line = head + value;
    let s = SseState { buffer: written_line(value, crlf) + rest, data, has_data };
    assert(in_one_line(line)) by {
        assert forall|i: int| 0 <= i < line.len() implies #[trigger] line[i] != 10 && line[i]
            != 13 by {
            if i < 6 {
                assert(line[i] == head[i]);
            } else {
                assert(line[i] == value[i - 6]);
            }
        }
    }
    assert(s.buffer =~= line + line_mark(crlf) + rest);
    a_line_is_taken(line, crlf, rest);
    let p = |b: u8| b == COLON;
    assert forall|i: int| 0 <= i < 4 implies !p(#[trigger] line[i]) by {
        assert(line[i] == head[i]);
    }
    assert(line[4] == head[4] && line[5] == head[5]);
    first_where_is(line, p, 4);
    assert(line.take(4) =~= data_field());
    assert(line.skip(6) =~= value);
    data_line_is_text(line);
    assert(data.push('\n') =~= data + seq!['\n']);
}

/// Data lines gather their text, a line feed between it and what was gathered before.
proof fn data_lines_are_gathered(lines: Seq<Seq<u8>>, crlf: bool, rest: Seq<u8>)
    requires
        is_sendable(lines),
    ensures
        run(
            SseState {
                buffer: written_lines(lines, crlf) + rest,
                data: Seq::empty(),
                has_data: false,
            },
        ) == run(SseState { buffer: rest, data: event_text(lines), has_data: true }),
    decreases lines.len(),
{
    let last = lines.last();
    let front = lines.drop_last();
    assert(in_one_line(lines[lines.len() - 1]));
    lines_in_two(front, last, crlf);
    assert(front.push(last) =~= lines);
    let tail = written_line(last, crlf) + rest;
    assert(written_lines(lines, crlf) + rest =~= written_lines(front, crlf) + tail);
    if front.len() == 0 {
        assert(written_lines(front, crlf) + tail =~= tail);
        a_data_line_is_applied(last, crlf, rest, Seq::empty(), false);
        assert(Seq::<char>::empty() + decode_utf8(last) =~= decode_utf8(last));
        assert(lines[0] == last);
    } else {
        assert forall|i: int| 0 <= i < front.len() implies in_one_line(#[trigger] front[i])
            && valid_utf8(front[i]) by {
            assert(front[i] == lines[i]);
        }
        data_lines_are_gathered(front, crlf, tail);
        a_data_line_is_applied(last, crlf, rest, event_text(front), true);
    }
}

proof fn lines_in_two(lines: Seq<Seq<u8>>, last: Seq<u8>, crlf: bool)
    ensures
        written_lines(lines.push(last), crlf) == written_lines(lines, crlf) + written_line(
            last,
            crlf,
        ),
    decreases lines.len(),
{
    let whole = lines.push(last);
    if lines.len() == 0 {
        assert(whole.drop_first() =~= Seq::empty());
        assert(whole[0] == last);
        assert(written_line(last, crlf) + written_lines(Seq::empty(), crlf) =~= written_lines(
            lines,
            crlf,
        ) + written_line(last, crlf));
    } else {
        assert(whole.drop_first() =~= lines.drop_first().push(last));
        lines_in_two(lines.drop_first(), last, crlf);
        assert(whole[0] == lines[0]);
        assert(written_line(lines[0], crlf) + (written_lines(lines.drop_first(), crlf)
            + written_line(last, crlf)) =~= written_lines(lines, crlf) + written_line(last, crlf));
    }
}

/// A decoder that holds nothing.
pub open spec fn nothing_held() -> SseState {
    SseState { buffer: Seq::empty(), data: Seq::empty(), has_data: false }
}

/// A blank line dispatches what was gathered.
proof fn a_blank_line_dispatches(data: Seq<char>, crlf: bool, rest: Seq<u8>)
    ensures
        ({
            let whole = run(
                SseState { buffer: line_mark(crlf) + rest, data, has_data: true },
            );
            let after = run(feed(nothing_held(), rest));
            whole == (SseRun { events: seq![data] + after.events, ..after })
        }),
{
    let blank = Seq::<u8>::empty();
    a_line_is_taken(blank, crlf, rest);
    assert(blank + line_mark(crlf) + rest =~= line_mark(crlf) + rest);
    let s = SseState { buffer: line_mark(crlf) + rest, data, has_data: true };
    assert(s.buffer.take(0) =~= blank);
    assert(feed(nothing_held(), rest) =~= SseState {
        buffer: rest,
        data: Seq::empty(),
        has_data: false,
    });
}

/// One event that was sent arrives before what follows it.
proof fn an_event_arrives(lines: Seq<Seq<u8>>, crlf: bool, rest: Seq<u8>)
    requires
        is_sendable(lines),
    ensures
        ({
            let whole = run(feed(nothing_held(), written_event(lines, crlf) + rest));
            let after = run(feed(nothing_held(), rest));
            whole == (SseRun { events: seq![event_text(lines)] + after.events, ..after })
        }),
{
    let tail = line_mark(crlf) + rest;
    let s = feed(nothing_held(), written_event(lines, crlf) + rest);
    assert(s =~= SseState {
        buffer: written_lines(lines, crlf) + tail,
        data: Seq::empty(),
        has_data: false,
    });
    data_lines_are_gathered(lines, crlf, tail);
    a_blank_line_dispatches(event_text(lines), crlf, rest);
}

/// Events that were sent arrive: each gives its lines with a line feed between them,
/// none is lost, joined with another or made up, and what follows them is read as if
/// they had not been there.
pub proof fn what_is_sent_arrives(events: Seq<Seq<Seq<u8>>>, crlf: bool, rest: Seq<u8>)
    requires
        forall|i: int| 0 <= i < events.len() ==> is_sendable(#[trigger] events[i]),
    ensures
        ({
            let whole = run(feed(nothing_held(), written_events(events, crlf) + rest));
            let after = run(feed(nothing_held(), rest));
            &&& whole.events == events.map_values(|lines: Seq<Seq<u8>>| event_text(lines))
                + after.events
            &&& whole.error == after.error
            &&& whole.state == after.state
        }),
    decreases events.len(),
{
    let texts_of = |lines: Seq<Seq<u8>>| event_text(lines);
    let after = run(feed(nothing_held(), rest));
    if events.len() == 0 {
        assert(written_events(events, crlf) + rest =~= rest);
        assert(events.map_values(texts_of) + after.events =~= after.events);
    } else {
        let lines = events[0];
        let others = events.drop_first();
        let tail = written_events(others, crlf) + rest;
        assert forall|i: int| 0 <= i < others.len() implies is_sendable(#[trigger] others[i]) by {
            assert(others[i] == events[i + 1]);
        }
        what_is_sent_arrives(others, crlf, rest);
        assert(is_sendable(events[0]));
        an_event_arrives(lines, crlf, tail);
        assert(written_events(events, crlf) + rest =~= written_event(lines, crlf) + tail);
        assert(events.map_values(texts_of) =~= seq![event_text(lines)] + others.map_values(
            texts_of,
        ));
        assert(seq![event_text(lines)] + (others.map_values(texts_of) + after.events)
            =~= events.map_values(texts_of) + after.events);
    }
}

/// A line that is not blank, is UTF-8 and has another name than `data` before its first
/// colon, such as a comment, makes no difference to what follows it.
pub proof fn other_lines_make_no_difference(s: SseState, line: Seq<u8>, crlf: bool, rest: Seq<u8>)
    requires
        s.buffer.len() == 0,
        line.len() > 0,
        in_one_line(line),
        valid_utf8(line),
        !(line.len() >= 4 && line.take(4) == seq![100u8, 97u8, 116u8, 97u8] && (line.len() == 4
            || line[4] == 58)),
    ensures
        run(feed(s, line + line_mark(crlf) + rest)) == run(feed(s, rest)),
{
    a_line_is_taken(line, crlf, rest);
    assert(feed(s, line + line_mark(crlf) + rest).buffer =~= line + line_mark(crlf) + rest);
    assert(feed(s, rest).buffer =~= rest);
    let p = |b: u8| b == COLON;
    first_where_bounds(line, p);
    if is_data_line(line) {
        let colon = first_where(line, p);
        assert(line.take(colon).len() == 4);
        assert(line.take(4) =~= seq![100u8, 97u8, 116u8, 97u8]);
    }
}

/// A line that is not UTF-8 fails the stream, whatever it is.
pub proof fn a_line_that_is_no_text_fails(s: SseState, line: Seq<u8>, crlf: bool, rest: Seq<u8>)
    requires
        s.buffer.len() == 0,
        in_one_line(line),
        !valid_utf8(line),
    ensures
        run(feed(s, line + line_mark(crlf) + rest)).error is Some,
        run(feed(s, line + line_mark(crlf) + rest)).events.len() == 0,
        run(feed(s, line + line_mark(crlf) + rest)).state == feed(s, rest),
{
    a_line_is_taken(line, crlf, rest);
    assert(feed(s, line + line_mark(crlf) + rest).buffer =~= line + line_mark(crlf) + rest);
    assert(feed(s, rest).buffer =~= rest);
    if line.len() == 0 {
        assert(line =~= Seq::empty());
        assert(valid_utf8(Seq::<u8>::empty()));
    }
}

/// A line ends with a line feed, a carriage return or both, and which it is makes no
/// difference. A carriage return is known to end a line once something else than a line
/// feed follows it.
pub proof fn every_end_of_a_line_is_alike(s: SseState, line: Seq<u8>, rest: Seq<u8>)
    requires
        s.buffer.len() == 0,
        in_one_line(line),
    ensures
        run(feed(s, line + seq![13u8, 10u8] + rest)) == run(feed(s, line + seq![10u8] + rest)),
        rest.len() > 0 && rest[0] != 10 ==> run(feed(s, line + seq![13u8] + rest)) == run(
            feed(s, line + seq![10u8] + rest),
        ),
{
    let bytes = line + seq![10u8] + rest;
    assert(line_mark(false) =~= seq![10u8]);
    assert(line_mark(true) =~= seq![13u8, 10u8]);
    a_line_is_taken(line, false, rest);
    a_line_is_taken(line, true, rest);
    assert(feed(s, bytes).buffer =~= bytes);
    let both = line + seq![13u8, 10u8] + rest;
    assert(feed(s, both).buffer =~= both);
    if rest.len() > 0 && rest[0] != 10 {
        let alone = line + seq![13u8] + rest;
        let p = |b: u8| ends_line(b);
        let n = line.len() as int;
        assert forall|i: int| 0 <= i < n implies !p(#[trigger] alone[i]) by {
            assert(alone[i] == line[i]);
        }
        assert(alone[n] == 13 && alone[n + 1] == rest[0]);
        first_where_is(alone, p, n);
        assert(alone.take(n) =~= line);
        assert(alone.skip(n + 1) =~= rest);
        assert(feed(s, alone).buffer =~= alone);
    }
}

/// A line that has not ended is held, and so is one whose end may go on.
pub proof fn an_unfinished_line_is_held(s: SseState, line: Seq<u8>)
    requires
        s.buffer.len() == 0,
        in_one_line(line),
    ensures
        run(feed(s, line)) == (SseRun {
            state: SseState { buffer: line, ..s },
            events: Seq::empty(),
            error: None,
        }),
        run(feed(s, line.push(13))) == (SseRun {
            state: SseState { buffer: line.push(13), ..s },
            events: Seq::empty(),
            error: None,
        }),
{
    let p = |b: u8| ends_line(b);
    let n = line.len() as int;
    assert forall|i: int| 0 <= i < n implies !p(#[trigger] line[i]) by {}
    first_where_is(line, p, n);
    assert(feed(s, line).buffer =~= line);
    let more = line.push(13);
    assert forall|i: int| 0 <= i < n implies !p(#[trigger] more[i]) by {
        assert(more[i] == line[i]);
    }
    first_where_is(more, p, n);
    assert(feed(s, more).buffer =~= more);
}

/// A blank line where no data was gathered makes no difference.
pub proof fn blank_lines_alone_say_nothing(s: SseState, crlf: bool, rest: Seq<u8>)
    requires
        s.buffer.len() == 0,
        !s.has_data,
    ensures
        run(feed(s, line_mark(crlf) + rest)) == run(feed(s, rest)),
{
    let blank = Seq::<u8>::empty();
    a_line_is_taken(blank, crlf, rest);
    assert(blank + line_mark(crlf) + rest =~= line_mark(crlf) + rest);
    assert(feed(s, line_mark(crlf) + rest).buffer =~= line_mark(crlf) + rest);
    assert(feed(s, line_mark(crlf) + rest).buffer.take(0) =~= blank);
    assert(feed(s, rest) =~= SseState { buffer: rest, ..s });
}

/// The space behind the colon of a data line may be left out where the value does not
/// begin with one, and so may the colon where there is no value.
pub proof fn a_data_line_has_several_spellings(
    s: SseState,
    value: Seq<u8>,
    crlf: bool,
    rest: Seq<u8>,
)
    requires
        s.buffer.len() == 0,
        in_one_line(value),
        valid_utf8(value),
    ensures
        value.len() == 0 || value[0] != 32 ==> run(
            feed(s, seq![100u8, 97u8, 116u8, 97u8, 58u8] + value + line_mark(crlf) + rest),
        ) == run(feed(s, written_line(value, crlf) + rest)),
        value.len() == 0 ==> run(
            feed(s, seq![100u8, 97u8, 116u8, 97u8] + line_mark(crlf) + rest),
        ) == run(feed(s, written_line(value, crlf) + rest)),
{
    assert(feed(s, written_line(value, crlf) + rest) =~= SseState {
        buffer: written_line(value, crlf) + rest,
        ..s
    });
    a_data_line_is_applied(value, crlf, rest, s.data, s.has_data);
    if value.len() == 0 || value[0] != 32 {
        let head = seq![100u8, 97u8, 116u8, 97u8, 58u8];
        let line = head + value;
        a_tight_line_has_its_value(value);
        a_line_of_data_is_applied(line, value, crlf, rest, s.data, s.has_data);
        let bytes = head + value + line_mark(crlf) + rest;
        assert(feed(s, bytes) =~= SseState { buffer: line + line_mark(crlf) + rest, ..s });
    }
    if value.len() == 0 {
        let line = seq![100u8, 97u8, 116u8, 97u8];
        first_where_is(line, |b: u8| b == COLON, 4);
        assert(line.take(4) =~= data_field());
        assert(field_value(line) =~= value);
        assert(in_one_line(line));
        a_line_of_data_is_applied(line, value, crlf, rest, s.data, s.has_data);
        assert(feed(s, line + line_mark(crlf) + rest) =~= SseState {
            buffer: line + line_mark(crlf) + rest,
            ..s
        });
    }
}

/// A line without a space behind its colon has the value that follows.
proof fn a_tight_line_has_its_value(value: Seq<u8>)
    requires
        in_one_line(value),
        value.len() == 0 || value[0] != 32,
    ensures
        ({
            let line = seq![100u8, 97u8, 116u8, 97u8, 58u8] + value;
            in_one_line(line) && is_data_line(line) && field_value(line) == value
        }),
{
    let p = |b: u8| b == COLON;
    let head = seq![100u8, 97u8, 116u8, 97u8, 58u8];
    let line = head + value;
    assert forall|i: int| 0 <= i < line.len() implies #[trigger] line[i] != 10 && line[i]
        != 13 by {
        if i < 5 {
            assert(line[i] == head[i]);
        } else {
            assert(line[i] == value[i - 5]);
        }
    }
    assert forall|i: int| 0 <= i < 4 implies !p(#[trigger] line[i]) by {
        assert(line[i] == head[i]);
    }
    assert(line[4] == head[4]);
    first_where_is(line, p, 4);
    assert(line.take(4) =~= data_field());
    if value.len() > 0 {
        assert(line[5] == value[0]);
    }
    assert(line.skip(5) =~= value);
}

/// A data line gathers its value, however it is spelled.
proof fn a_line_of_data_is_applied(
    line: Seq<u8>,
    value: Seq<u8>,
    crlf: bool,
    rest: Seq<u8>,
    data: Seq<char>,
    has_data: bool,
)
    requires
        in_one_line(line),
        line.len() > 0,
        is_data_line(line),
        field_value(line) == value,
        valid_utf8(value),
    ensures
        run(SseState { buffer: line + line_mark(crlf) + rest, data, has_data }) == run(
            SseState {
                buffer: rest,
                data: if has_data {
                    data + seq!['\n'] + decode_utf8(value)
                } else {
                    data + decode_utf8(value)
                },
                has_data: true,
            },
        ),
{
    a_line_is_taken(line, crlf, rest);
    data_line_is_text(line);
    assert(data.push('\n') =~= data + seq!['\n']);
}

impl SseDecoder {
    /// Feeds a chunk of arbitrary bytes and returns the events it completed.
    ///
    /// An empty result is the ordinary case of a chunk that finished no event. The
    /// error is that of the first line that is not UTF-8, whatever kind of line it is;
    /// the lines before it and the line itself are then consumed.
    pub fn push(&mut self, chunk: &[u8]) -> (result: Result<Vec<String>, String>)
        ensures
            final(self)@ == run(feed(old(self)@, chunk@)).state,
            match result {
                Ok(events) => run(feed(old(self)@, chunk@)).error is None && texts(events@) == run(
                    feed(old(self)@, chunk@),
                ).events,
                Err(reason) => run(feed(old(self)@, chunk@)).error == Some(reason@),
            },
    {
        self.buffer.extend_from_slice(chunk);
        let ghost start = feed(old(self)@, chunk@);
        assert(self@ =~= start);
        let mut events: Vec<String> = Vec::new();
        proof {
            assert(texts(events@) =~= Seq::empty());
            assert(texts(events@) + run(self@).events =~= run(self@).events);
        }
        loop
            invariant
                start == feed(old(self)@, chunk@),
                run(start).state == run(self@).state,
                run(start).error == run(self@).error,
                run(start).events == texts(events@) + run(self@).events,
            ensures
                line_extent(self@.buffer) is None,
            decreases self@.buffer.len(),
        {
            let ghost before = self@;
            match self.take_line() {
                None => {
                    break;
                },
                Some(line) => {
                    proof {
                        line_survives(before.buffer, Seq::empty());
                    }
                    match self.consume(line.as_slice()) {
                        Err(reason) => {
                            return Err(reason);
                        },
                        Ok(None) => {},
                        Ok(Some(event)) => {
                            let ghost earlier = texts(events@);
                            events.push(event);
                            proof {
                                assert(texts(events@) =~= earlier.push(event@));
                                let rest = run(self@).events;
                                assert(earlier + (seq![event@] + rest) =~= earlier.push(event@)
                                    + rest);
                            }
                        },
                    }
                },
            }
        }
        assert(texts(events@) + Seq::<Seq<char>>::empty() =~= texts(events@));
        Ok(events)
    }

    /// Whether anything is held that never formed a complete event.
    ///
    /// A stream that ends here was cut short.
    pub fn has_partial_event(&self) -> (partial: bool)
        ensures
            partial == (self@.buffer.len() > 0 || self@.has_data),
    {
        !self.buffer.is_empty() || self.has_data
    }

    /// Removes the first complete line, if the buffer holds one.
    fn take_line(&mut self) -> (line: Option<Vec<u8>>)
        ensures
            match line_extent(old(self)@.buffer) {
                None => line is None && *final(self) == *old(self),
                Some(extent) => line is Some && line->0@ == old(self)@.buffer.take(
                    line_end(old(self)@.buffer),
                ) && final(self)@ == (SseState {
                    buffer: old(self)@.buffer.skip(extent),
                    ..old(self)@
                }),
            },
    {
        let index: usize = position_of_line_end(self.buffer.as_slice());
        if index >= self.buffer.len() {
            return None;
        }
        let consumed: usize = if self.buffer[index] == CR {
            if index + 1 >= self.buffer.len() {
                return None;
            }
            if self.buffer[index + 1] == LF {
                index + 2
            } else {
                index + 1
            }
        } else {
            index + 1
        };
        proof {
            first_where_bounds(self.buffer@, |b: u8| ends_line(b));
        }
        let ghost whole = self.buffer@;
        let mut rest = self.buffer.split_off(consumed);
        core::mem::swap(&mut self.buffer, &mut rest);
        let mut line = rest;
        line.truncate(index);
        proof {
            assert(line@ =~= whole.take(index as int));
            assert(self.buffer@ =~= whole.skip(consumed as int));
        }
        Some(line)
    }

    /// Applies one line, returning a payload when the line dispatched an event.
    fn consume(&mut self, line: &[u8]) -> (result: Result<Option<String>, String>)
        ensures
            final(self)@.buffer == old(self)@.buffer,
            ({
                let (data, has_data, event, error) = apply_line(
                    old(self)@.data,
                    old(self)@.has_data,
                    line@,
                );
                &&& final(self)@.data == data
                &&& final(self)@.has_data == has_data
                &&& match result {
                    Ok(None) => event is None && error is None,
                    Ok(Some(payload)) => event == Some(payload@) && error is None,
                    Err(reason) => error == Some(reason@),
                }
            }),
    {
        if line.is_empty() {
            if !self.has_data {
                return Ok(None);
            }
            self.has_data = false;
            let mut payload = String::new();
            core::mem::swap(&mut self.data, &mut payload);
            return Ok(Some(payload));
        }
        let colon: usize = position_of_colon(line);
        proof {
            first_where_bounds(line@, |b: u8| b == COLON);
        }
        if !is_data_field(line, colon) {
            return match decode_text(line) {
                Err(reason) => {
                    let mut message = "a line was not valid UTF-8: ".to_owned();
                    message.append(reason.as_str());
                    Err(message)
                },
                Ok(_) => Ok(None),
            };
        }
        let from: usize = if colon >= line.len() {
            line.len()
        } else if colon + 1 < line.len() && line[colon + 1] == SPACE {
            colon + 2
        } else {
            colon + 1
        };
        let value = vstd::slice::slice_subrange(line, from, line.len());
        proof {
            assert(value@ =~= field_value(line@));
            data_line_is_text(line@);
        }
        match decode_text(value) {
            Err(reason) => {
                let mut message = "a data line was not valid UTF-8: ".to_owned();
                message.append(reason.as_str());
                Err(message)
            },
            Ok(decoded) => {
                if self.has_data {
                    self.data.push('\n');
                }
                self.data.append(decoded.as_str());
                self.has_data = true;
                Ok(None)
            },
        }
    }
}

fn position_of_line_end(bytes: &[u8]) -> (at: usize)
    ensures
        at == line_end(bytes@),
{
    let ghost p = |b: u8| ends_line(b);
    let mut i: usize = 0;
    while i < bytes.len()
        invariant
            i <= bytes@.len(),
            p == (|b: u8| ends_line(b)),
            forall|j: int| 0 <= j < i ==> !p(#[trigger] bytes@[j]),
        decreases bytes@.len() - i,
    {
        if bytes[i] == LF || bytes[i] == CR {
            proof {
                first_where_is(bytes@, p, i as int);
            }
            return i;
        }
        i = i + 1;
    }
    proof {
        first_where_is(bytes@, p, i as int);
    }
    i
}

fn position_of_colon(bytes: &[u8]) -> (at: usize)
    ensures
        at == first_where(bytes@, |b: u8| b == COLON),
{
    let ghost p = |b: u8| b == COLON;
    let mut i: usize = 0;
    while i < bytes.len()
        invariant
            i <= bytes@.len(),
            p == (|b: u8| b == COLON),
            forall|j: int| 0 <= j < i ==> !p(#[trigger] bytes@[j]),
        decreases bytes@.len() - i,
    {
        if bytes[i] == COLON {
            proof {
                first_where_is(bytes@, p, i as int);
            }
            return i;
        }
        i = i + 1;
    }
    proof {
        first_where_is(bytes@, p, i as int);
    }
    i
}

fn is_data_field(line: &[u8], colon: usize) -> (is_data: bool)
    requires
        colon <= line@.len(),
    ensures
        is_data == (line@.take(colon as int) == data_field()),
{
    assert(data_field().len() == 4);
    if colon != 4 {
        return false;
    }
    let is_data = line[0] == 100 && line[1] == 97 && line[2] == 116 && line[3] == 97;
    proof {
        if is_data {
            assert(line@.take(4) =~= data_field());
        } else {
            assert(line@.take(4)[0] == line@[0] && line@.take(4)[1] == line@[1]
                && line@.take(4)[2] == line@[2] && line@.take(4)[3] == line@[3]);
        }
    }
    is_data
}

} // verus!
