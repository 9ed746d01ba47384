//! A generation in progress, as its producer and its consumer see it.
//!
//! A producer holds a [`GenerationSink`], a consumer a [`GenerationStream`], and a
//! bounded queue of [`StreamItem`]s runs between them. The sink says what to put in
//! the queue, the stream what to make of what comes out of it. A stream is a start,
//! then text, then exactly one of a completion, a cancellation or an error, then
//! nothing ([`a_stream_has_one_beginning_and_one_end`]), and only a completion that
//! followed text counts as generation
//! ([`only_a_completion_with_text_demonstrates_generation`]).

use vstd::prelude::*;
use vstd::string::*;

use crate::cancel::{request_after, CancellationCause, RequestHandle, RequestState, RequestStep};
use crate::id::RequestId;
use crate::inference::{FinishReason, GenerationResult, GenerationUsage, Reason};

verus! {

/// What a completed generation reports beyond the text itself, which a consumer has
/// already received.
#[derive(Debug, Clone, PartialEq, Eq)]
pub struct GenerationSummary {
    pub finish_reason: FinishReason,
    pub usage: Option<GenerationUsage>,
}

/// What a [`GenerationSummary`] says.
pub struct Summary {
    pub finish_reason: Reason,
    pub usage: Option<GenerationUsage>,
}

impl GenerationSummary {
    pub open spec fn view(&self) -> Summary {
        Summary { finish_reason: self.finish_reason@, usage: self.usage }
    }
}

/// One observable step of a generation in progress.
///
/// There is no failure variant: a failure ends the stream as an error. A piece of
/// text is not a token, since a backend chunk need not correspond to one.
#[derive(Debug, Clone, PartialEq, Eq)]
pub enum GenerationEvent {
    /// The runtime accepted the request for execution and gave it an identity.
    Started { request_id: RequestId },
    /// Generated text, never empty.
    TextDelta { request_id: RequestId, text: String },
    /// The generation ended normally. No further events follow.
    Completed { request_id: RequestId, summary: GenerationSummary },
    /// The generation was stopped and its transport released. No further events
    /// follow. Not a claim that the backend has stopped.
    Cancelled { request_id: RequestId, cause: CancellationCause },
}

/// What a [`GenerationEvent`] says.
pub enum Event {
    Started { request_id: RequestId },
    TextDelta { request_id: RequestId, text: Seq<char> },
    Completed { request_id: RequestId, summary: Summary },
    Cancelled { request_id: RequestId, cause: CancellationCause },
}

impl GenerationEvent {
    pub open spec fn view(&self) -> Event {
        match self {
            GenerationEvent::Started { request_id } => Event::Started { request_id: *request_id },
            GenerationEvent::TextDelta { request_id, text } => Event::TextDelta {
                request_id: *request_id,
                text: text@,
            },
            GenerationEvent::Completed { request_id, summary } => Event::Completed {
                request_id: *request_id,
                summary: summary@,
            },
            GenerationEvent::Cancelled { request_id, cause } => Event::Cancelled {
                request_id: *request_id,
                cause: *cause,
            },
        }
    }

    /// The request this event belongs to.
    pub fn request_id(&self) -> (id: RequestId)
        ensures
            id == event_request(self@),
    {
        match self {
            GenerationEvent::Started { request_id } => *request_id,
            GenerationEvent::TextDelta { request_id, .. } => *request_id,
            GenerationEvent::Completed { request_id, .. } => *request_id,
            GenerationEvent::Cancelled { request_id, .. } => *request_id,
        }
    }
}

pub open spec fn event_request(event: Event) -> RequestId {
    match event {
        Event::Started { request_id } => request_id,
        Event::TextDelta { request_id, .. } => request_id,
        Event::Completed { request_id, .. } => request_id,
        Event::Cancelled { request_id, .. } => request_id,
    }
}

/// Why a generation stream ended without completing.
#[derive(Debug, Clone, PartialEq, Eq)]
pub enum GenerationStreamError {
    /// The backend refused the request before any content was produced.
    Refused { detail: String },
    /// A backend event could not be understood.
    MalformedEvent { detail: String },
    /// The backend stopped sending before reporting a terminal event.
    UnexpectedEnd { detail: String },
    /// The stream could not be carried.
    Transport { detail: String },
}

/// What a [`GenerationStreamError`] says.
pub enum StreamFault {
    Refused { detail: Seq<char> },
    MalformedEvent { detail: Seq<char> },
    UnexpectedEnd { detail: Seq<char> },
    Transport { detail: Seq<char> },
}

/// A fault in words.
pub open spec fn stream_fault_text(fault: StreamFault) -> Seq<char> {
    match fault {
        StreamFault::Refused { detail } => "the backend refused the request: "@ + detail,
        StreamFault::MalformedEvent { detail } => "a backend stream event was not usable: "@
            + detail,
        StreamFault::UnexpectedEnd { detail } => "the backend stream ended before completing: "@
            + detail,
        StreamFault::Transport { detail } => "the generation stream failed: "@ + detail,
    }
}

impl GenerationStreamError {
    pub open spec fn view(&self) -> StreamFault {
        match self {
            GenerationStreamError::Refused { detail } => StreamFault::Refused { detail: detail@ },
            GenerationStreamError::MalformedEvent { detail } => StreamFault::MalformedEvent {
                detail: detail@,
            },
            GenerationStreamError::UnexpectedEnd { detail } => StreamFault::UnexpectedEnd {
                detail: detail@,
            },
            GenerationStreamError::Transport { detail } => StreamFault::Transport {
                detail: detail@,
            },
        }
    }

    pub fn to_string(&self) -> (text: String)
        ensures
            text@ == stream_fault_text(self@),
    {
        let (lead, detail) = match self {
            GenerationStreamError::Refused { detail } => {
                ("the backend refused the request: ", detail)
            },
            GenerationStreamError::MalformedEvent { detail } => {
                ("a backend stream event was not usable: ", detail)
            },
            GenerationStreamError::UnexpectedEnd { detail } => {
                ("the backend stream ended before completing: ", detail)
            },
            GenerationStreamError::Transport { detail } => {
                ("the generation stream failed: ", detail)
            },
        };
        let mut text = lead.to_owned();
        text.append(detail.as_str());
        text
    }
}

/// How many items may be queued between a backend and a consumer.
///
/// Small on purpose: once it fills, the adapter stops reading the backend's socket,
/// which is how a slow consumer slows the backend instead of growing this process's
/// memory.
pub const GENERATION_STREAM_BUFFER: usize = 32;

/// What travels from a producer to a consumer.
pub type StreamItem = Result<GenerationEvent, GenerationStreamError>;

/// What a [`StreamItem`] says.
pub type Item = Result<Event, StreamFault>;

pub open spec fn item_view(item: StreamItem) -> Item {
    match item {
        Ok(event) => Ok(event@),
        Err(error) => Err(error@),
    }
}

pub open spec fn items_view(items: Seq<StreamItem>) -> Seq<Item> {
    items.map_values(|item: StreamItem| item_view(item))
}

/// Creates both halves of a generation stream, and the item that opens its queue.
///
/// The opening is made here, by neither half, so that a producer can neither omit
/// it, repeat it, nor send it after text.
pub fn generation_stream(handle: &RequestHandle) -> (parts: (
    GenerationSink,
    GenerationStream,
    StreamItem,
))
    ensures
        parts.0@ == handle@.id,
        parts.1@ == (StreamState {
            request_id: handle@.id,
            delivered: false,
            completed: false,
            cancelled: None,
            finished: false,
        }),
        item_view(parts.2) == Ok::<Event, StreamFault>(
            Event::Started { request_id: handle@.id },
        ),
{
    let request_id: RequestId = handle.id();
    (
        GenerationSink { request_id },
        GenerationStream {
            request_id,
            delivered: false,
            completed: false,
            cancelled: None,
            finished: false,
        },
        Ok(GenerationEvent::Started { request_id }),
    )
}

/// The producing half of a generation stream.
///
/// Ending a stream consumes the sink, so whichever outcome comes first takes the
/// sink with it and a second cannot follow.
#[derive(Debug)]
pub struct GenerationSink {
    request_id: RequestId,
}

impl View for GenerationSink {
    type V = RequestId;

    closed spec fn view(&self) -> RequestId {
        self.request_id
    }
}

impl GenerationSink {
    /// The request being generated.
    pub fn request_id(&self) -> (id: RequestId)
        ensures
            id == self@,
    {
        self.request_id
    }

    /// What to send for generated text: nothing when it is empty.
    ///
    /// Backends routinely send events carrying no content, and forwarding those
    /// would make every consumer filter them.
    pub fn delta(&self, text: String) -> (item: Option<StreamItem>)
        ensures
            match item {
                None => text@.len() == 0,
                Some(item) => text@.len() > 0 && item_view(item) == Ok::<Event, StreamFault>(
                    Event::TextDelta { request_id: self@, text: text@ },
                ),
            },
            item is Some <==> text@.len() > 0,
            item matches Some(item) ==> item is Ok && item->Ok_0 is TextDelta
                && item->Ok_0->TextDelta_text@ == text@ && item->Ok_0->TextDelta_request_id
                == self@,
    {
        if text.as_str().is_empty() {
            return None;
        }
        Some(Ok(GenerationEvent::TextDelta { request_id: self.request_id, text }))
    }

    /// Ends the stream normally: records the outcome and gives the item to send.
    pub fn complete(self, handle: &mut RequestHandle, summary: GenerationSummary) -> (item:
        StreamItem)
        ensures
            item_view(item) == Ok::<Event, StreamFault>(
                Event::Completed { request_id: self@, summary: summary@ },
            ),
            final(handle)@ == request_after(
                old(handle)@,
                RequestStep::Finish(RequestState::Completed),
            ),
    {
        let _ = handle.finish(RequestState::Completed);
        Ok(GenerationEvent::Completed { request_id: self.request_id, summary })
    }

    /// Ends the stream because the request was stopped. For use once execution has
    /// actually ended.
    pub fn cancel(self, handle: &mut RequestHandle, cause: CancellationCause) -> (item: StreamItem)
        ensures
            item_view(item) == Ok::<Event, StreamFault>(
                Event::Cancelled { request_id: self@, cause },
            ),
            final(handle)@ == request_after(
                old(handle)@,
                RequestStep::Finish(RequestState::Cancelled),
            ),
    {
        let _ = handle.finish(RequestState::Cancelled);
        Ok(GenerationEvent::Cancelled { request_id: self.request_id, cause })
    }

    /// Ends the stream with a failure.
    pub fn fail(self, handle: &mut RequestHandle, error: GenerationStreamError) -> (item:
        StreamItem)
        ensures
            item_view(item) == Err::<Event, StreamFault>(error@),
            final(handle)@ == request_after(
                old(handle)@,
                RequestStep::Finish(RequestState::Failed),
            ),
    {
        let _ = handle.finish(RequestState::Failed);
        Err(error)
    }
}

/// What a consumer knows of its stream.
pub struct StreamState {
    pub request_id: RequestId,
    /// Whether any text that is not empty was delivered.
    pub delivered: bool,
    /// Whether a completion was observed. Not the same as having finished: a stream
    /// that fails or is cancelled is finished and did not complete.
    pub completed: bool,
    /// Why the request was stopped, if it was.
    pub cancelled: Option<CancellationCause>,
    /// Whether no further item can arrive.
    pub finished: bool,
}

/// What a producer that vanished is reported as.
pub open spec fn vanished() -> Item {
    Err(
        StreamFault::UnexpectedEnd {
            detail: "the backend stream stopped without reporting an outcome"@,
        },
    )
}

/// What a consumer is given for what it received, where `None` is a producer that
/// is gone.
pub open spec fn yielded(received: Option<Item>) -> Item {
    match received {
        Some(item) => item,
        None => vanished(),
    }
}

/// A stream after it received something.
pub open spec fn stream_after(s: StreamState, received: Option<Item>) -> StreamState {
    match yielded(received) {
        Ok(Event::TextDelta { text, .. }) => StreamState {
            delivered: s.delivered || text.len() > 0,
            ..s
        },
        Ok(Event::Completed { .. }) => StreamState { completed: true, finished: true, ..s },
        Ok(Event::Cancelled { cause, .. }) => StreamState {
            cancelled: Some(cause),
            finished: true,
            ..s
        },
        Ok(Event::Started { .. }) => s,
        Err(_) => StreamState { finished: true, ..s },
    }
}

/// The consuming half of a generation stream.
#[derive(Debug)]
pub struct GenerationStream {
    request_id: RequestId,
    delivered: bool,
    completed: bool,
    cancelled: Option<CancellationCause>,
    finished: bool,
}

impl View for GenerationStream {
    type V = StreamState;

    closed spec fn view(&self) -> StreamState {
        StreamState {
            request_id: self.request_id,
            delivered: self.delivered,
            completed: self.completed,
            cancelled: self.cancelled,
            finished: self.finished,
        }
    }
}

impl GenerationStream {
    /// The request being generated.
    pub fn request_id(&self) -> (id: RequestId)
        ensures
            id == self@.request_id,
    {
        self.request_id
    }

    /// Whether the stream has ended, so that nothing more is to be received.
    pub fn is_finished(&self) -> (finished: bool)
        ensures
            finished == self@.finished,
    {
        self.finished
    }

    /// The next item for the consumer, given what the queue delivered: an item, or
    /// `None` when its producer is gone.
    ///
    /// A producer that disappears without an outcome is reported as an error, so a
    /// truncated generation cannot be mistaken for a finished one. Once the stream
    /// has ended there is no next item.
    pub fn next(&mut self, handle: &mut RequestHandle, received: Option<StreamItem>) -> (item:
        Option<StreamItem>)
        ensures
            ({
                let got: Option<Item> = match received {
                    Some(r) => Some(item_view(r)),
                    None => None,
                };
                if old(self)@.finished {
                    item is None && final(self)@ == old(self)@ && final(handle)@ == old(handle)@
                } else {
                    &&& item is Some
                    &&& item_view(item->0) == yielded(got)
                    &&& final(self)@ == stream_after(old(self)@, got)
                    &&& final(handle)@ == if received is None {
                        request_after(old(handle)@, RequestStep::Finish(RequestState::Failed))
                    } else {
                        old(handle)@
                    }
                }
            }),
            old(self)@.finished ==> item is None,
            !old(self)@.finished ==> match received {
                Some(received) => item == Some(received),
                None => item is Some && item->0 is Err && item->0->Err_0 is UnexpectedEnd,
            },
            !old(self)@.finished ==> final(self)@.finished == !(received matches Some(Ok(event)) && (
            event is Started || event is TextDelta)),
            !old(self)@.finished ==> final(self)@.completed == (old(self)@.completed || (
            received matches Some(Ok(event)) && event is Completed)),
            !old(self)@.finished ==> final(self)@.delivered == (old(self)@.delivered || (
            received matches Some(Ok(event)) && event is TextDelta
                && event->TextDelta_text@.len() > 0)),
            !old(self)@.finished && (received matches Some(Ok(event)) && event is Cancelled)
                ==> final(self)@.cancelled == Some(received->0->Ok_0->Cancelled_cause),
    {
        if self.finished {
            return None;
        }
        match received {
            Some(Ok(event)) => {
                match &event {
                    GenerationEvent::TextDelta { text, .. } => {
                        if !text.as_str().is_empty() {
                            self.delivered = true;
                        }
                    },
                    GenerationEvent::Completed { .. } => {
                        self.completed = true;
                        self.finished = true;
                    },
                    GenerationEvent::Cancelled { cause, .. } => {
                        self.cancelled = Some(*cause);
                        self.finished = true;
                    },
                    GenerationEvent::Started { .. } => {},
                }
                Some(Ok(event))
            },
            Some(Err(error)) => {
                self.finished = true;
                Some(Err(error))
            },
            None => {
                self.finished = true;
                let _ = handle.finish(RequestState::Failed);
                Some(
                    Err(
                        GenerationStreamError::UnexpectedEnd {
                            detail:
                                "the backend stream stopped without reporting an outcome".to_owned(),
                        },
                    ),
                )
            },
        }
    }

    /// Why this request was stopped, if it was.
    pub fn cancellation(&self) -> (cause: Option<CancellationCause>)
        ensures
            cause == self@.cancelled,
    {
        self.cancelled
    }

    /// Whether this stream demonstrated text generation.
    ///
    /// True only after a completion that followed text that was not empty. A failed or cancelled
    /// stream does not qualify even when it delivered real text.
    pub fn demonstrated_generation(&self) -> (demonstrated: bool)
        ensures
            demonstrated == (self@.completed && self@.delivered),
    {
        self.completed && self.delivered
    }

    /// Collects a whole stream into one outcome, given everything the queue
    /// delivered before its producer was gone.
    ///
    /// A stopped request produced no result. The text that arrived before it
    /// stopped is returned, but not as an answer the model finished giving. The
    /// error is the first one the stream yields.
    pub fn collect(&mut self, handle: &mut RequestHandle, received: Vec<StreamItem>) -> (outcome:
        Result<GenerationOutcome, GenerationStreamError>)
        ensures
            match outcome {
                Ok(outcome) => collected(
                    old(self)@.finished,
                    items_view(received@),
                    Seq::empty(),
                ) == Ok::<Collected, StreamFault>(outcome@),
                Err(error) => collected(
                    old(self)@.finished,
                    items_view(received@),
                    Seq::empty(),
                ) == Err::<Collected, StreamFault>(error@),
            },
            final(self)@ == drained(old(self)@, items_view(received@)),
            final(handle)@ == if stream_after_all(old(self)@, items_view(received@)).finished {
                old(handle)@
            } else {
                request_after(old(handle)@, RequestStep::Finish(RequestState::Failed))
            },
    {
        let mut text = String::new();
        let ghost all = items_view(received@);
        let mut queue = received;
        let mut backwards: Vec<StreamItem> = Vec::new();
        while queue.len() > 0
            invariant
                all.len() == queue@.len() + backwards@.len(),
                forall|i: int|
                    0 <= i < queue@.len() ==> item_view(#[trigger] queue@[i]) == all[i],
                forall|i: int|
                    0 <= i < backwards@.len() ==> item_view(#[trigger] backwards@[i]) == all[
                    all.len() - 1 - i],
            decreases queue@.len(),
        {
            let ghost before = queue@;
            let last = queue.pop();
            if let Some(item) = last {
                backwards.push(item);
            }
        }
        let ghost mut at: int = 0;
        assert(all.skip(0) =~= all);
        loop
            invariant
                0 <= at <= all.len(),
                backwards@.len() == all.len() - at,
                forall|i: int|
                    0 <= i < backwards@.len() ==> item_view(#[trigger] backwards@[i]) == all[
                    all.len() - 1 - i],
                collected(old(self)@.finished, all, Seq::empty()) == collected(
                    self@.finished,
                    all.skip(at),
                    text@,
                ),
                all == items_view(received@),
                handle@ == old(handle)@,
                stream_after_all(old(self)@, all) == stream_after_all(self@, all.skip(at)),
            ensures
                self@.finished,
                collected(old(self)@.finished, all, Seq::empty()) == collected(
                    true,
                    all.skip(at),
                    text@,
                ),
                all == items_view(received@),
                handle@ == old(handle)@,
                stream_after_all(old(self)@, all) == self@,
            decreases all.len() - at, (if self@.finished { 0int } else { 1int }),
        {
            if self.finished {
                break;
            }
            let ghost tail = all.skip(at);
            let incoming: Option<StreamItem> = backwards.pop();
            proof {
                if incoming is Some {
                    assert(tail[0] == all[at]);
                    assert(tail.drop_first() =~= all.skip(at + 1));
                    at = at + 1;
                }
            }
            match self.next(handle, incoming) {
                None => {
                    break;
                },
                Some(Err(error)) => {
                    return Err(error);
                },
                Some(Ok(event)) => match event {
                    GenerationEvent::Started { .. } => {},
                    GenerationEvent::TextDelta { text: delta, .. } => {
                        text.append(delta.as_str());
                    },
                    GenerationEvent::Completed { summary, .. } => {
                        return Ok(
                            GenerationOutcome::Completed(
                                GenerationResult {
                                    text,
                                    finish_reason: summary.finish_reason,
                                    usage: summary.usage,
                                },
                            ),
                        );
                    },
                    GenerationEvent::Cancelled { cause, .. } => {
                        return Ok(GenerationOutcome::Cancelled { text, cause });
                    },
                },
            }
        }
        Err(
            GenerationStreamError::UnexpectedEnd {
                detail: "the stream ended without a terminal event".to_owned(),
            },
        )
    }
}

/// How a generation ended, when it ended without failing.
///
/// Kept apart from [`GenerationResult`] so that a stopped request cannot be taken
/// for a finished answer.
#[derive(Debug, Clone, PartialEq, Eq)]
pub enum GenerationOutcome {
    /// The model finished and said why.
    Completed(GenerationResult),
    /// The request was stopped before the model finished.
    Cancelled { text: String, cause: CancellationCause },
}

/// What a [`GenerationOutcome`] says.
pub enum Collected {
    Completed { text: Seq<char>, summary: Summary },
    Cancelled { text: Seq<char>, cause: CancellationCause },
}

impl GenerationOutcome {
    pub open spec fn view(&self) -> Collected {
        match self {
            GenerationOutcome::Completed(result) => Collected::Completed {
                text: result.text@,
                summary: Summary { finish_reason: result.finish_reason@, usage: result.usage },
            },
            GenerationOutcome::Cancelled { text, cause } => Collected::Cancelled {
                text: text@,
                cause: *cause,
            },
        }
    }

    /// Whatever text was produced, finished or not.
    pub fn text(&self) -> (text: &str)
        ensures
            text@ == match self@ {
                Collected::Completed { text, .. } => text,
                Collected::Cancelled { text, .. } => text,
            },
    {
        match self {
            GenerationOutcome::Completed(result) => result.text.as_str(),
            GenerationOutcome::Cancelled { text, .. } => text.as_str(),
        }
    }

    /// The finished result, or `None` if the request was stopped.
    pub fn completed(&self) -> (result: Option<&GenerationResult>)
        ensures
            match self {
                GenerationOutcome::Completed(r) => result == Some(r),
                GenerationOutcome::Cancelled { .. } => result is None,
            },
    {
        match self {
            GenerationOutcome::Completed(result) => Some(result),
            GenerationOutcome::Cancelled { .. } => None,
        }
    }
}

/// What collecting gives for what the queue delivers, with `text` gathered so far.
pub open spec fn collected(finished: bool, received: Seq<Item>, text: Seq<char>) -> Result<
    Collected,
    StreamFault,
>
    decreases received.len(),
{
    if finished {
        Err(StreamFault::UnexpectedEnd { detail: "the stream ended without a terminal event"@ })
    } else if received.len() == 0 {
        Err(vanished()->Err_0)
    } else {
        match received[0] {
            Err(fault) => Err(fault),
            Ok(Event::Started { .. }) => collected(false, received.drop_first(), text),
            Ok(Event::TextDelta { text: delta, .. }) => collected(
                false,
                received.drop_first(),
                text + delta,
            ),
            Ok(Event::Completed { summary, .. }) => Ok(Collected::Completed { text, summary }),
            Ok(Event::Cancelled { cause, .. }) => Ok(Collected::Cancelled { text, cause }),
        }
    }
}

// ---------------------------------------------------------------------------
// The life of a stream.

/// How a producer ends a stream, if it does.
pub enum Ending {
    Complete(Summary),
    Cancel(CancellationCause),
    Fail(StreamFault),
    /// The producer is dropped without an outcome.
    Vanish,
}

/// What a sink sends for each piece of text: every piece that is not empty.
pub open spec fn delta_items(id: RequestId, pieces: Seq<Seq<char>>) -> Seq<Item>
    decreases pieces.len(),
{
    if pieces.len() == 0 {
        Seq::empty()
    } else {
        let before = delta_items(id, pieces.drop_last());
        if pieces.last().len() == 0 {
            before
        } else {
            before.push(Ok(Event::TextDelta { request_id: id, text: pieces.last() }))
        }
    }
}

/// What a sink sends when it ends.
pub open spec fn ending_items(id: RequestId, ending: Ending) -> Seq<Item> {
    match ending {
        Ending::Complete(summary) => seq![Ok(Event::Completed { request_id: id, summary })],
        Ending::Cancel(cause) => seq![Ok(Event::Cancelled { request_id: id, cause })],
        Ending::Fail(fault) => seq![Err(fault)],
        Ending::Vanish => Seq::empty(),
    }
}

/// Everything the queue carries over the life of a sink.
pub open spec fn sent(id: RequestId, pieces: Seq<Seq<char>>, ending: Ending) -> Seq<Item> {
    seq![Ok::<Event, StreamFault>(Event::Started { request_id: id })] + delta_items(id, pieces)
        + ending_items(id, ending)
}

/// A stream after receiving a list of items, until it has finished.
pub open spec fn stream_after_all(s: StreamState, received: Seq<Item>) -> StreamState
    decreases received.len(),
{
    if s.finished || received.len() == 0 {
        s
    } else {
        stream_after_all(stream_after(s, Some(received[0])), received.drop_first())
    }
}

/// A stream that has read everything its queue delivered, and learnt that its
/// producer is gone if that did not end it.
pub open spec fn drained(s: StreamState, received: Seq<Item>) -> StreamState {
    let last = stream_after_all(s, received);
    if last.finished {
        last
    } else {
        stream_after(last, None)
    }
}

/// Everything a consumer is given: what the queue carries until the stream has
/// finished, and the report of a vanished producer if it never did.
pub open spec fn observed(s: StreamState, received: Seq<Item>) -> Seq<Item>
    decreases received.len(),
{
    if s.finished {
        Seq::empty()
    } else if received.len() == 0 {
        seq![vanished()]
    } else {
        seq![received[0]] + observed(stream_after(s, Some(received[0])), received.drop_first())
    }
}

/// Whether an item ends a stream.
pub open spec fn is_last(item: Item) -> bool {
    match item {
        Ok(Event::Completed { .. }) => true,
        Ok(Event::Cancelled { .. }) => true,
        Ok(_) => false,
        Err(_) => true,
    }
}

pub open spec fn fresh(id: RequestId) -> StreamState {
    StreamState {
        request_id: id,
        delivered: false,
        completed: false,
        cancelled: None,
        finished: false,
    }
}

proof fn delta_items_shape(id: RequestId, pieces: Seq<Seq<char>>)
    ensures
        forall|i: int|
            0 <= i < delta_items(id, pieces).len() ==> {
                &&& (#[trigger] delta_items(id, pieces)[i]) is Ok
                &&& delta_items(id, pieces)[i]->Ok_0 is TextDelta
                &&& delta_items(id, pieces)[i]->Ok_0->TextDelta_text.len() > 0
                &&& delta_items(id, pieces)[i]->Ok_0->TextDelta_request_id == id
            },
        delta_items(id, pieces).len() > 0 <==> exists|i: int|
            0 <= i < pieces.len() && (#[trigger] pieces[i]).len() > 0,
    decreases pieces.len(),
{
    if pieces.len() > 0 {
        let before = pieces.drop_last();
        delta_items_shape(id, before);
        if delta_items(id, pieces).len() > 0 {
            if pieces.last().len() > 0 {
                assert(pieces[pieces.len() - 1].len() > 0);
            } else {
                let w = choose|i: int| 0 <= i < before.len() && (#[trigger] before[i]).len() > 0;
                assert(pieces[w].len() > 0);
            }
        } else {
            assert forall|i: int| 0 <= i < pieces.len() implies (#[trigger] pieces[i]).len()
                == 0 by {
                if i < before.len() {
                    assert(before[i].len() == 0);
                }
            }
        }
    }
}

/// Receiving text changes nothing but that text was delivered.
proof fn receive_deltas(s: StreamState, deltas: Seq<Item>, rest: Seq<Item>)
    requires
        !s.finished,
        forall|i: int|
            0 <= i < deltas.len() ==> (#[trigger] deltas[i]) is Ok && deltas[i]->Ok_0 is TextDelta
                && deltas[i]->Ok_0->TextDelta_text.len() > 0,
    ensures
        ({
            let then = StreamState { delivered: s.delivered || deltas.len() > 0, ..s };
            &&& stream_after_all(s, deltas + rest) == stream_after_all(then, rest)
            &&& observed(s, deltas + rest) == deltas + observed(then, rest)
        }),
    decreases deltas.len(),
{
    if deltas.len() == 0 {
        assert(deltas + rest =~= rest);
        assert(deltas + observed(s, rest) =~= observed(s, rest));
    } else {
        let next = stream_after(s, Some(deltas[0]));
        let tail = deltas.drop_first();
        assert(deltas[0] is Ok && deltas[0]->Ok_0 is TextDelta);
        assert forall|i: int| 0 <= i < tail.len() implies (#[trigger] tail[i]) is Ok
            && tail[i]->Ok_0 is TextDelta && tail[i]->Ok_0->TextDelta_text.len() > 0 by {
            assert(tail[i] == deltas[i + 1]);
        }
        receive_deltas(next, tail, rest);
        assert((deltas + rest).drop_first() =~= tail + rest);
        let then = StreamState { delivered: true, ..s };
        assert(seq![deltas[0]] + (tail + observed(then, rest)) =~= deltas + observed(then, rest));
    }
}

proof fn receive_all(id: RequestId, pieces: Seq<Seq<char>>, ending: Ending)
    ensures
        ({
            let deltas = delta_items(id, pieces);
            let items = sent(id, pieces, ending);
            let then = StreamState { delivered: deltas.len() > 0, ..fresh(id) };
            &&& stream_after_all(fresh(id), items) == stream_after_all(
                then,
                ending_items(id, ending),
            )
            &&& observed(fresh(id), items) == seq![
                Ok::<Event, StreamFault>(Event::Started { request_id: id }),
            ] + deltas + observed(then, ending_items(id, ending))
        }),
{
    let deltas = delta_items(id, pieces);
    let tail = ending_items(id, ending);
    let items = sent(id, pieces, ending);
    delta_items_shape(id, pieces);
    receive_deltas(fresh(id), deltas, tail);
    assert(items.drop_first() =~= deltas + tail);
    let then = StreamState { delivered: deltas.len() > 0, ..fresh(id) };
    let start = Ok::<Event, StreamFault>(Event::Started { request_id: id });
    assert(seq![start] + (deltas + observed(then, tail)) =~= seq![start] + deltas + observed(
        then,
        tail,
    ));
}

/// Whatever a producer does, its consumer is given the start first, then only text
/// that is not empty, then exactly one end, and nothing after it; every event names
/// the request. A producer that vanishes is reported, never taken for an end.
pub proof fn a_stream_has_one_beginning_and_one_end(
    id: RequestId,
    pieces: Seq<Seq<char>>,
    ending: Ending,
)
    ensures
        ({
            let items = observed(fresh(id), sent(id, pieces, ending));
            let n = items.len();
            &&& n >= 2
            &&& items[0] == Ok::<Event, StreamFault>(Event::Started { request_id: id })
            &&& forall|i: int|
                0 < i < n - 1 ==> (#[trigger] items[i]) is Ok && items[i]->Ok_0 is TextDelta
                    && items[i]->Ok_0->TextDelta_text.len() > 0
            &&& is_last(items[n - 1])
            &&& ending is Vanish ==> items[n - 1] == vanished()
            &&& forall|i: int|
                0 <= i < n && (#[trigger] items[i]) is Ok ==> event_request(items[i]->Ok_0) == id
            &&& stream_after_all(fresh(id), sent(id, pieces, ending)).finished || ending is Vanish
        }),
{
    let deltas = delta_items(id, pieces);
    let tail = ending_items(id, ending);
    let then = StreamState { delivered: deltas.len() > 0, ..fresh(id) };
    receive_all(id, pieces, ending);
    delta_items_shape(id, pieces);
    let start = Ok::<Event, StreamFault>(Event::Started { request_id: id });
    let end = observed(then, tail);
    reveal_with_fuel(observed, 2);
    reveal_with_fuel(stream_after_all, 2);
    if !(ending is Vanish) {
        assert(end =~= seq![tail[0]]);
    }
    let items = seq![start] + deltas + end;
    assert(items.len() == deltas.len() + 2);
    assert forall|i: int| 0 < i < items.len() - 1 implies (#[trigger] items[i]) is Ok
        && items[i]->Ok_0 is TextDelta && items[i]->Ok_0->TextDelta_text.len() > 0 by {
        assert(items[i] == deltas[i - 1]);
    }
    assert forall|i: int| 0 <= i < items.len() && (#[trigger] items[i]) is Ok implies event_request(
        items[i]->Ok_0,
    ) == id by {
        if 0 < i < items.len() - 1 {
            assert(items[i] == deltas[i - 1]);
        }
    }
}

/// A stream demonstrates generation exactly when its producer completed it after
/// text that was not empty: not when it failed, was cancelled or vanished, whatever
/// text came before, and not when it completed with none.
pub proof fn only_a_completion_with_text_demonstrates_generation(
    id: RequestId,
    pieces: Seq<Seq<char>>,
    ending: Ending,
)
    ensures
        ({
            let s = stream_after_all(fresh(id), sent(id, pieces, ending));
            (s.completed && s.delivered) <==> (ending is Complete && exists|i: int|
                0 <= i < pieces.len() && (#[trigger] pieces[i]).len() > 0)
        }),
{
    receive_all(id, pieces, ending);
    delta_items_shape(id, pieces);
    reveal_with_fuel(stream_after_all, 2);
}

/// What a consumer is given is what the queue carried, item for item, up to the first
/// end; and what it knows of its stream follows from what it was given.
pub proof fn a_consumer_is_given_what_was_sent(s: StreamState, item: Item)
    ensures
        yielded(Some(item)) == item,
        yielded(None) is Err && yielded(None)->Err_0 is UnexpectedEnd,
        stream_after(s, Some(item)).request_id == s.request_id,
        stream_after(s, Some(item)).finished == (s.finished || !(item matches Ok(event) && (
        event is Started || event is TextDelta))),
        stream_after(s, Some(item)).completed == (s.completed || (item matches Ok(event)
            && event is Completed)),
        stream_after(s, Some(item)).delivered == (s.delivered || (item matches Ok(event)
            && event is TextDelta && event->TextDelta_text.len() > 0)),
        item matches Ok(event) && event is Cancelled ==> stream_after(s, Some(item)).cancelled
            == Some(item->Ok_0->Cancelled_cause),
        !(item matches Ok(event) && event is Cancelled) ==> stream_after(s, Some(item)).cancelled
            == s.cancelled,
        stream_after(s, None).finished,
        stream_after(s, None).completed == s.completed,
{
}

/// The pieces of text, one after another.
pub open spec fn joined_text(pieces: Seq<Seq<char>>) -> Seq<char>
    decreases pieces.len(),
{
    if pieces.len() == 0 {
        Seq::empty()
    } else {
        joined_text(pieces.drop_last()) + pieces.last()
    }
}

proof fn collect_deltas(id: RequestId, pieces: Seq<Seq<char>>, rest: Seq<Item>, text: Seq<char>)
    ensures
        collected(false, delta_items(id, pieces) + rest, text) == collected(
            false,
            rest,
            text + joined_text(pieces),
        ),
    decreases pieces.len(),
{
    if pieces.len() == 0 {
        assert(delta_items(id, pieces) + rest =~= rest);
        assert(text + joined_text(pieces) =~= text);
    } else {
        let before = pieces.drop_last();
        let last = pieces.last();
        if last.len() == 0 {
            collect_deltas(id, before, rest, text);
            assert(joined_text(pieces) =~= joined_text(before));
        } else {
            let item = Ok::<Event, StreamFault>(Event::TextDelta { request_id: id, text: last });
            collect_deltas(id, before, seq![item] + rest, text);
            assert(delta_items(id, pieces) + rest =~= delta_items(id, before) + (seq![item]
                + rest));
            assert((seq![item] + rest).drop_first() =~= rest);
            assert(text + joined_text(pieces) =~= (text + joined_text(before)) + last);
        }
    }
}

/// Collecting a stream gives all its text and how it ended: a completion is the
/// whole result, a cancellation keeps the partial text, and a failed or vanished
/// producer is an error, never a partial result.
pub proof fn collecting_rebuilds_the_whole_result(
    id: RequestId,
    pieces: Seq<Seq<char>>,
    ending: Ending,
)
    ensures
        collected(false, sent(id, pieces, ending), Seq::empty()) == match ending {
            Ending::Complete(summary) => Ok::<Collected, StreamFault>(
                Collected::Completed { text: joined_text(pieces), summary },
            ),
            Ending::Cancel(cause) => Ok(
                Collected::Cancelled { text: joined_text(pieces), cause },
            ),
            Ending::Fail(fault) => Err(fault),
            Ending::Vanish => Err(vanished()->Err_0),
        },
{
    let tail = ending_items(id, ending);
    let items = sent(id, pieces, ending);
    assert(items.drop_first() =~= delta_items(id, pieces) + tail);
    collect_deltas(id, pieces, tail, Seq::empty());
    assert(Seq::<char>::empty() + joined_text(pieces) =~= joined_text(pieces));
}

/// A fault tells what it is about, whole and behind words that do not depend on it.
pub proof fn a_stream_fault_tells_what_it_is_about(detail: Seq<char>)
    ensures
        stream_fault_text(StreamFault::Refused { detail }) == stream_fault_text(
            StreamFault::Refused { detail: Seq::empty() },
        ) + detail,
        stream_fault_text(StreamFault::MalformedEvent { detail }) == stream_fault_text(
            StreamFault::MalformedEvent { detail: Seq::empty() },
        ) + detail,
        stream_fault_text(StreamFault::UnexpectedEnd { detail }) == stream_fault_text(
            StreamFault::UnexpectedEnd { detail: Seq::empty() },
        ) + detail,
        stream_fault_text(StreamFault::Transport { detail }) == stream_fault_text(
            StreamFault::Transport { detail: Seq::empty() },
        ) + detail,
{
}

/// The text that an item carries.
pub open spec fn carried_text(item: Item) -> Seq<char> {
    match item {
        Ok(Event::TextDelta { text, .. }) => text,
        _ => Seq::empty(),
    }
}

proof fn what_is_carried_is_gathered(
    before: Seq<Item>,
    end: Item,
    rest: Seq<Item>,
    text: Seq<char>,
)
    requires
        forall|i: int|
            0 <= i < before.len() ==> (#[trigger] before[i] matches Ok(event) && (event is Started
                || event is TextDelta)),
    ensures
        collected(false, before + seq![end] + rest, text) == collected(
            false,
            seq![end] + rest,
            text + before.map_values(|item: Item| carried_text(item)).flatten(),
        ),
    decreases before.len(),
{
    let carried = |item: Item| carried_text(item);
    let all = before + seq![end] + rest;
    if before.len() == 0 {
        assert(all =~= seq![end] + rest);
        assert(before.map_values(carried) =~= Seq::empty());
        assert(text + before.map_values(carried).flatten() =~= text);
    } else {
        let first = before[0];
        let others = before.drop_first();
        assert(all[0] == first);
        assert(all.drop_first() =~= others + seq![end] + rest);
        assert forall|i: int| 0 <= i < others.len() implies (#[trigger] others[i] matches Ok(event)
            && (event is Started || event is TextDelta)) by {
            assert(others[i] == before[i + 1]);
        }
        what_is_carried_is_gathered(others, end, rest, text + carried_text(first));
        let pieces = before.map_values(carried);
        assert(pieces.drop_first() =~= others.map_values(carried));
        assert(pieces[0] == carried_text(first));
        assert(pieces.flatten() == pieces[0] + pieces.drop_first().flatten());
        assert(text + carried_text(first) + others.map_values(carried).flatten() =~= text
            + pieces.flatten());
        if first matches Ok(event) && event is Started {
            assert(text + carried_text(first) =~= text);
        }
    }
}

/// Whatever a queue delivers before the end of a stream, all its text is gathered, and
/// the first end decides what was collected, whatever follows it.
pub proof fn all_text_before_the_end_is_collected(before: Seq<Item>, end: Item, rest: Seq<Item>)
    requires
        forall|i: int|
            0 <= i < before.len() ==> (#[trigger] before[i] matches Ok(event) && (event is Started
                || event is TextDelta)),
    ensures
        ({
            let outcome = collected(false, before + seq![end] + rest, Seq::empty());
            let text = before.map_values(|item: Item| carried_text(item)).flatten();
            &&& (end matches Ok(event) && event is Completed) ==> outcome == Ok::<
                Collected,
                StreamFault,
            >(Collected::Completed { text, summary: end->Ok_0->Completed_summary })
            &&& (end matches Ok(event) && event is Cancelled) ==> outcome == Ok::<
                Collected,
                StreamFault,
            >(Collected::Cancelled { text, cause: end->Ok_0->Cancelled_cause })
            &&& end matches Err(fault) ==> outcome == Err::<Collected, StreamFault>(fault)
        }),
{
    what_is_carried_is_gathered(before, end, rest, Seq::empty());
    let text = before.map_values(|item: Item| carried_text(item)).flatten();
    assert(Seq::<char>::empty() + text =~= text);
    assert((seq![end] + rest)[0] == end);
}

} // verus!
