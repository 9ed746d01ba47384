//! A generation from its request to its last event, against a scripted engine.

use std::collections::VecDeque;

use mehoy::backend::execution::{Attempt, Execution, ExecutionStep, Stage};
use mehoy::backend::generate::{
    GenerationReader, ReadStep, Waited, WireChoice, WireErrorBody, WireResponse, WireUsage,
};
use mehoy::cancel::{CancellationCause, RequestHandle, RequestState};
use mehoy::id::RequestId;
use mehoy::inference::FinishReason;
use mehoy::stream::{
    generation_stream, GenerationEvent, GenerationStream, GenerationStreamError, StreamItem,
};

/// What the scripted engine sends back.
enum Script {
    /// Send these runs of bytes, then close.
    Chunks(Vec<Vec<u8>>),
    /// Answer with this status and body instead of a stream.
    Status(u16, &'static str),
    /// Accept the connection and never answer at all, not even headers.
    NoHeaders,
    /// Answer with headers and then say nothing, forever.
    Silent,
    /// Send these runs, then hold the connection open without sending anything.
    ChunksThenSilence(Vec<Vec<u8>>),
    /// Refuse the connection.
    Unreachable,
    /// Send these runs, then break the connection.
    ChunksThenReset(Vec<Vec<u8>>),
}

enum Producer {
    Executing(Execution),
    Waiting(GenerationReader),
    Finished,
}

/// What the engine does once it has sent what it has to send.
#[derive(Clone, Copy, PartialEq)]
enum Then {
    Close,
    Hold,
    Reset,
}

/// One generation: its request, both ends of its stream, and the engine behind it.
struct Generation {
    handle: RequestHandle,
    stream: GenerationStream,
    queue: VecDeque<StreamItem>,
    producer: Producer,
    chunks: VecDeque<Vec<u8>>,
    then: Then,
    status: Option<(u16, &'static str)>,
    answers: bool,
    reachable: bool,
    consumer_gone: bool,
}

fn decode(payload: &str) -> Result<WireResponse, String> {
    let value: serde_json::Value =
        serde_json::from_str(payload).map_err(|error| error.to_string())?;
    let choices = value
        .get("choices")
        .and_then(|c| c.as_array())
        .ok_or_else(|| "missing field `choices`".to_owned())?
        .iter()
        .map(|choice| WireChoice {
            text: choice["text"].as_str().unwrap_or_default().to_owned(),
            finish_reason: choice["finish_reason"].as_str().map(str::to_owned),
        })
        .collect();
    let usage = value.get("usage").map(|usage| WireUsage {
        prompt_tokens: usage["prompt_tokens"].as_u64().unwrap_or_default(),
        completion_tokens: usage["completion_tokens"].as_u64().unwrap_or_default(),
    });
    Ok(WireResponse { choices, usage })
}

fn error_shape(body: &str) -> Option<WireErrorBody> {
    let value: serde_json::Value = serde_json::from_str(body).ok()?;
    let error = value.get("error")?;
    Some(WireErrorBody {
        message: error["message"].as_str().unwrap_or_default().to_owned(),
        kind: error["type"].as_str().unwrap_or_default().to_owned(),
    })
}

impl Generation {
    fn open(script: Script) -> Generation {
        Generation::open_as(script, 7)
    }

    fn open_as(script: Script, id: u64) -> Generation {
        let mut handle = RequestHandle::new(RequestId::from_raw(id));
        let (sink, stream, opening) = generation_stream(&handle);
        let mut queue = VecDeque::new();
        queue.push_back(opening);
        let producer = match Execution::begin(sink, &mut handle, None) {
            ExecutionStep::Attempt(execution) => Producer::Executing(execution),
            _ => panic!("a request that was encoded is attempted"),
        };
        let mut generation = Generation {
            handle,
            stream,
            queue,
            producer,
            chunks: VecDeque::new(),
            then: Then::Close,
            status: None,
            answers: true,
            reachable: true,
            consumer_gone: false,
        };
        match script {
            Script::Chunks(chunks) => generation.chunks = chunks.into(),
            Script::Status(status, body) => generation.status = Some((status, body)),
            Script::NoHeaders => generation.answers = false,
            Script::Silent => generation.then = Then::Hold,
            Script::ChunksThenSilence(chunks) => {
                generation.chunks = chunks.into();
                generation.then = Then::Hold;
            }
            Script::Unreachable => generation.reachable = false,
            Script::ChunksThenReset(chunks) => {
                generation.chunks = chunks.into();
                generation.then = Then::Reset;
            }
        }
        generation
    }

    fn executed(&mut self, step: ExecutionStep) {
        self.producer = match step {
            ExecutionStep::Attempt(execution) => Producer::Executing(execution),
            ExecutionStep::Read(reader) => Producer::Waiting(reader),
            ExecutionStep::End(item) => {
                self.queue.push_back(item);
                Producer::Finished
            }
        };
    }

    /// Lets the reader work off what it has until it waits or ends.
    fn read(&mut self, mut step: ReadStep) {
        loop {
            match step {
                ReadStep::Wait(reader) => {
                    self.producer = Producer::Waiting(reader);
                    return;
                }
                ReadStep::Parse(reader, payload) => {
                    step = reader.parsed(&mut self.handle, &payload, decode(&payload));
                }
                ReadStep::Send(reader, item) => {
                    let taken = !self.consumer_gone;
                    if taken {
                        self.queue.push_back(item);
                    }
                    step = reader.delivered(&mut self.handle, taken);
                }
                ReadStep::End(item) => {
                    self.queue.push_back(item);
                    self.producer = Producer::Finished;
                    return;
                }
            }
        }
    }

    /// Whether nothing happens any more unless time passes or the request is stopped.
    fn is_quiet(&self) -> bool {
        if self.handle.cancellation_cause().is_some() {
            return false;
        }
        match &self.producer {
            Producer::Executing(execution) => execution.stage() == Stage::Send && !self.answers,
            Producer::Waiting(_) => self.chunks.is_empty() && self.then == Then::Hold,
            Producer::Finished => true,
        }
    }

    /// One step of the producer. In a quiet moment the idle budget runs out.
    fn step(&mut self) {
        let producer = std::mem::replace(&mut self.producer, Producer::Finished);
        match producer {
            Producer::Executing(execution) => {
                let handle = &mut self.handle;
                let step = if let Some(cause) = handle.cancellation_cause() {
                    execution.attempted(handle, Attempt::Stopped(cause))
                } else {
                    match execution.stage() {
                        Stage::Connect if !self.reachable => execution
                            .attempted(handle, Attempt::Failed("connection refused".to_owned())),
                        Stage::Send if !self.answers => {
                            execution.attempted(handle, Attempt::Silent)
                        }
                        Stage::Answer => {
                            let status = self.status.map_or(200, |(status, _)| status);
                            execution.answered(handle, status)
                        }
                        Stage::Refusal => {
                            let (status, body) = self.status.expect("a refusal");
                            ExecutionStep::End(execution.refused(
                                handle,
                                status,
                                error_shape(body),
                                body.as_bytes(),
                            ))
                        }
                        _ => execution.attempted(handle, Attempt::Done),
                    }
                };
                self.executed(step);
            }
            Producer::Waiting(reader) => {
                let waited = if let Some(cause) = self.handle.cancellation_cause() {
                    Waited::Cancelled(cause)
                } else if let Some(chunk) = self.chunks.pop_front() {
                    Waited::Data(chunk)
                } else {
                    match self.then {
                        Then::Close => Waited::Closed,
                        Then::Hold => Waited::Silent,
                        Then::Reset => Waited::Failed("connection reset".to_owned()),
                    }
                };
                let step = reader.waited(&mut self.handle, waited);
                self.read(step);
            }
            Producer::Finished => {}
        }
    }

    fn next(&mut self) -> Option<StreamItem> {
        while self.queue.is_empty() && !matches!(self.producer, Producer::Finished) {
            self.step();
        }
        let received = self.queue.pop_front();
        self.stream.next(&mut self.handle, received)
    }

    fn drain(&mut self) -> (Vec<GenerationEvent>, Option<GenerationStreamError>) {
        let mut events = Vec::new();
        while let Some(item) = self.next() {
            match item {
                Ok(event) => events.push(event),
                Err(error) => return (events, Some(error)),
            }
        }
        (events, None)
    }
}

fn event(text: &str, finish: Option<&str>) -> Vec<u8> {
    let finish = finish.map_or_else(|| "null".to_owned(), |value| format!("\"{value}\""));
    format!("data: {{\"choices\":[{{\"text\":\"{text}\",\"finish_reason\":{finish}}}]}}\n\n")
        .into_bytes()
}

fn terminal_with_usage(text: &str) -> Vec<u8> {
    format!(
        "data: {{\"choices\":[{{\"text\":\"{text}\",\"finish_reason\":\"stop\"}}],\
\"usage\":{{\"prompt_tokens\":4,\"completion_tokens\":3}}}}\n\n"
    )
    .into_bytes()
}

fn done() -> Vec<u8> {
    b"data: [DONE]\n\n".to_vec()
}

fn assert_shape(events: &[GenerationEvent], expected_text: &str) -> FinishReason {
    let mut kinds = events.iter();

    let first = kinds.next().expect("a stream always starts");
    assert!(
        matches!(first, GenerationEvent::Started { .. }),
        "the first event must be Started, got {first:?}"
    );

    let mut text = String::new();
    let mut finish = None;
    for (position, event) in kinds.enumerate() {
        assert!(finish.is_none(), "an event followed the completion at {}", position + 1);
        match event {
            GenerationEvent::Started { .. } => {
                panic!("Started appeared again at position {}", position + 1)
            }
            GenerationEvent::TextDelta { text: delta, .. } => {
                assert!(!delta.is_empty(), "an empty delta reached the consumer");
                text.push_str(delta);
            }
            GenerationEvent::Completed { summary, .. } => {
                finish = Some(summary.finish_reason.clone());
            }
            GenerationEvent::Cancelled { cause, .. } => {
                panic!("unexpected cancellation ({cause:?}) at position {}", position + 1)
            }
        }
    }

    assert_eq!(text, expected_text);
    finish.expect("the stream must have completed")
}

fn terminals(events: &[GenerationEvent]) -> usize {
    events
        .iter()
        .filter(|event| {
            matches!(
                event,
                GenerationEvent::Completed { .. } | GenerationEvent::Cancelled { .. }
            )
        })
        .count()
}

fn completed(events: &[GenerationEvent]) -> bool {
    events.iter().any(|event| matches!(event, GenerationEvent::Completed { .. }))
}

#[test]
fn a_normal_stream_starts_delivers_and_completes_in_that_order() {
    let mut generation = Generation::open(Script::Chunks(vec![
        event("Hel", None),
        event("lo", None),
        terminal_with_usage(""),
        done(),
    ]));

    let (events, failure) = generation.drain();
    assert!(failure.is_none(), "unexpected failure: {failure:?}");
    assert_eq!(assert_shape(&events, "Hello"), FinishReason::Stop);
    assert_eq!(generation.handle.state(), RequestState::Completed);
}

#[test]
fn every_event_carries_the_request_it_belongs_to() {
    let mut generation = Generation::open(Script::Chunks(vec![
        event("hi", None),
        terminal_with_usage(""),
        done(),
    ]));

    let (events, _) = generation.drain();
    assert!(!events.is_empty());
    for event in &events {
        assert_eq!(event.request_id(), RequestId::from_raw(7));
    }
}

#[test]
fn usage_and_finish_reason_are_normalised_from_the_terminal_event() {
    let mut generation = Generation::open(Script::Chunks(vec![
        event("hi", None),
        terminal_with_usage(""),
        done(),
    ]));

    let (events, _) = generation.drain();
    let GenerationEvent::Completed { summary, .. } = events.last().expect("a last event") else {
        panic!("expected a completion, got {:?}", events.last());
    };
    assert_eq!(summary.finish_reason, FinishReason::Stop);
    let usage = summary.usage.expect("usage was reported");
    assert_eq!(usage.input_tokens, 4);
    assert_eq!(usage.output_tokens, 3);
}

#[test]
fn an_event_split_across_writes_arrives_as_one_delta() {
    // A split placed in the middle of a JSON payload must not produce two deltas or a
    // parse failure.
    let whole = event("together", None);
    let (head, tail) = whole.split_at(20);
    let mut generation = Generation::open(Script::Chunks(vec![
        head.to_vec(),
        tail.to_vec(),
        terminal_with_usage(""),
        done(),
    ]));

    let (events, failure) = generation.drain();
    assert!(failure.is_none(), "unexpected failure: {failure:?}");
    let deltas: Vec<_> = events
        .iter()
        .filter_map(|event| match event {
            GenerationEvent::TextDelta { text, .. } => Some(text.as_str()),
            _ => None,
        })
        .collect();
    assert_eq!(deltas, vec!["together"]);
}

#[test]
fn multibyte_text_split_across_writes_is_never_delivered_broken() {
    let whole = event("\u{4f60}\u{597d}\u{1f600}", None);
    for split in 1..whole.len() {
        let mut generation = Generation::open(Script::Chunks(vec![
            whole[..split].to_vec(),
            whole[split..].to_vec(),
            terminal_with_usage(""),
            done(),
        ]));

        let (events, failure) = generation.drain();
        assert!(failure.is_none(), "split {split} failed: {failure:?}");
        assert_eq!(
            assert_shape(&events, "\u{4f60}\u{597d}\u{1f600}"),
            FinishReason::Stop,
            "split at {split}"
        );
    }
}

#[test]
fn the_events_of_a_generation_do_not_depend_on_how_its_body_is_cut() {
    let body: Vec<u8> = [event("a", None), event("b", None), terminal_with_usage("c"), done()]
        .concat();
    let (expected, _) = Generation::open(Script::Chunks(vec![body.clone()])).drain();
    assert_eq!(assert_shape(&expected, "abc"), FinishReason::Stop);
    for width in 1..body.len() {
        let chunks = body.chunks(width).map(<[u8]>::to_vec).collect();
        let (events, failure) = Generation::open(Script::Chunks(chunks)).drain();
        assert!(failure.is_none(), "cut every {width} bytes: {failure:?}");
        assert_eq!(events, expected, "cut every {width} bytes");
    }
}

#[test]
fn an_empty_delta_never_reaches_the_consumer() {
    // The terminal event of a real stream usually carries no text. Forwarding it
    // would make every consumer filter events that mean nothing.
    let mut generation = Generation::open(Script::Chunks(vec![
        event("", None),
        event("real", None),
        event("", None),
        terminal_with_usage(""),
        done(),
    ]));

    let (events, _) = generation.drain();
    assert_eq!(assert_shape(&events, "real"), FinishReason::Stop);
    assert_eq!(events.len(), 3, "expected Started, one delta, Completed");
}

#[test]
fn a_malformed_event_fails_the_stream_rather_than_completing_it() {
    let mut generation = Generation::open(Script::Chunks(vec![
        event("good", None),
        b"data: {\"choices\": [ this is not json\n\n".to_vec(),
        terminal_with_usage(""),
        done(),
    ]));

    let (events, failure) = generation.drain();
    assert!(
        matches!(failure, Some(GenerationStreamError::MalformedEvent { .. })),
        "expected a malformed event, got {failure:?}"
    );
    assert!(!completed(&events), "a completion was fabricated from a broken stream");
    assert!(!generation.stream.demonstrated_generation());
    assert_eq!(generation.handle.state(), RequestState::Failed);
}

#[test]
fn an_event_that_is_not_text_fails_the_stream() {
    let mut generation = Generation::open(Script::Chunks(vec![
        event("good", None),
        b"data: \xff\n\n".to_vec(),
        terminal_with_usage(""),
        done(),
    ]));
    let (events, failure) = generation.drain();
    match failure {
        Some(GenerationStreamError::MalformedEvent { detail }) => {
            assert!(detail.contains("UTF-8"), "{detail}");
        }
        other => panic!("expected a malformed event, got {other:?}"),
    }
    assert_eq!(events.len(), 2);
}

#[test]
fn what_shares_a_read_with_a_broken_line_is_not_sent() {
    let mut chunk = event("good", None);
    chunk.extend_from_slice(b"data: \xff\n\n");
    let mut generation = Generation::open(Script::Chunks(vec![chunk]));
    let (events, failure) = generation.drain();
    assert!(
        matches!(failure, Some(GenerationStreamError::MalformedEvent { .. })),
        "expected a malformed event, got {failure:?}"
    );
    assert_eq!(events.len(), 1, "expected Started alone");

    // With nothing to hand over before it, a broken line reads the same however it is cut.
    let mut cut = Generation::open(Script::Chunks(vec![
        b": ping\n\nda".to_vec(),
        b"ta: \xff".to_vec(),
        b"\n\n".to_vec(),
    ]));
    let mut whole = Generation::open(Script::Chunks(vec![b": ping\n\ndata: \xff\n\n".to_vec()]));
    let (first, second) = (cut.drain(), whole.drain());
    assert_eq!(first.0.len(), 1);
    assert_eq!(second.0.len(), 1);
    assert_eq!(format!("{:?}", first.1), format!("{:?}", second.1));
}

#[test]
fn a_truncated_stream_is_an_error_and_not_a_completion() {
    // The backend produced content and then vanished. A consumer that only checked
    // for the end of the stream would treat this as a finished answer.
    let mut generation = Generation::open(Script::Chunks(vec![event("partial answer", None)]));

    let (events, failure) = generation.drain();
    assert!(
        matches!(failure, Some(GenerationStreamError::UnexpectedEnd { .. })),
        "expected an unexpected end, got {failure:?}"
    );
    assert!(!completed(&events), "a truncated stream must not complete");
    assert!(!generation.stream.demonstrated_generation());
}

#[test]
fn a_stream_cut_inside_an_event_is_an_error() {
    let whole = event("started", None);
    let mut generation = Generation::open(Script::Chunks(vec![whole[..15].to_vec()]));

    let (_, failure) = generation.drain();
    match failure {
        Some(GenerationStreamError::UnexpectedEnd { detail }) => {
            assert!(detail.contains("part way"), "unexpected detail: {detail}");
        }
        other => panic!("expected an unexpected end, got {other:?}"),
    }
}

#[test]
fn a_done_marker_without_a_finish_reason_is_an_error() {
    // The engine said it was finished but never said why. Inventing a reason would
    // report a truncation as an ordinary stop.
    let mut generation = Generation::open(Script::Chunks(vec![event("text", None), done()]));

    let (_, failure) = generation.drain();
    assert!(
        matches!(failure, Some(GenerationStreamError::UnexpectedEnd { .. })),
        "expected an unexpected end, got {failure:?}"
    );
}

#[test]
fn a_reason_followed_by_the_end_of_the_body_is_a_completion() {
    let mut generation = Generation::open(Script::Chunks(vec![event("text", Some("length"))]));
    let (events, failure) = generation.drain();
    assert!(failure.is_none(), "unexpected failure: {failure:?}");
    assert_eq!(assert_shape(&events, "text"), FinishReason::Length);
}

#[test]
fn nothing_after_the_done_marker_is_looked_at() {
    let mut generation = Generation::open(Script::Chunks(vec![[
        terminal_with_usage("a"),
        b"data:  [DONE] \n\n".to_vec(),
        b"data: not json\n\n".to_vec(),
    ]
    .concat()]));
    let (events, failure) = generation.drain();
    assert!(failure.is_none(), "unexpected failure: {failure:?}");
    assert_eq!(assert_shape(&events, "a"), FinishReason::Stop);
}

#[test]
fn a_broken_connection_is_a_failure_even_after_a_reason() {
    let mut generation =
        Generation::open(Script::ChunksThenReset(vec![event("text", Some("stop"))]));
    let (events, failure) = generation.drain();
    assert_eq!(
        failure,
        Some(GenerationStreamError::Transport { detail: "connection reset".to_owned() })
    );
    assert!(!completed(&events));
}

#[test]
fn a_refused_request_fails_through_its_stream() {
    // Starting a request does not wait for the backend, so a refusal cannot be
    // reported by the starting call. It has to reach the caller the same way every
    // other failure does.
    let mut generation = Generation::open(Script::Status(401, "{}"));
    let (events, failure) = generation.drain();

    match failure {
        Some(GenerationStreamError::Refused { detail }) => {
            assert!(detail.contains("credential"), "unexpected detail: {detail}");
        }
        other => panic!("expected a refusal, got {other:?}"),
    }
    assert_eq!(
        events.len(),
        1,
        "a refused request should still have been accepted, and nothing more"
    );
    assert!(matches!(events[0], GenerationEvent::Started { .. }));
    assert!(!generation.stream.demonstrated_generation());
    assert_eq!(generation.handle.state(), RequestState::Failed);
}

#[test]
fn an_unreachable_backend_fails_through_the_stream() {
    let mut generation = Generation::open(Script::Unreachable);
    let (events, failure) = generation.drain();
    assert_eq!(events.len(), 1);
    assert_eq!(
        failure,
        Some(GenerationStreamError::Transport { detail: "connection refused".to_owned() })
    );
}

#[test]
fn a_request_is_accepted_before_the_backend_is_reached() {
    // The request exists, and can be observed and stopped, before anything has been
    // sent anywhere.
    let mut generation = Generation::open(Script::Chunks(vec![
        event("hi", None),
        terminal_with_usage(""),
        done(),
    ]));

    assert_eq!(
        generation.next(),
        Some(Ok(GenerationEvent::Started { request_id: RequestId::from_raw(7) })),
        "acceptance is the first thing a consumer sees"
    );
    assert_eq!(generation.handle.state(), RequestState::Starting);
}

#[test]
fn a_request_that_cannot_be_encoded_fails_through_its_stream() {
    let mut handle = RequestHandle::new(RequestId::from_raw(7));
    let (sink, _, _) = generation_stream(&handle);
    match Execution::begin(sink, &mut handle, Some("too deep".to_owned())) {
        ExecutionStep::End(item) => assert_eq!(
            item,
            Err(GenerationStreamError::Transport {
                detail: "cannot encode the request: too deep".to_owned()
            })
        ),
        _ => panic!("nothing can be attempted"),
    }
    assert_eq!(handle.state(), RequestState::Failed);
}

#[test]
fn a_refusal_whose_body_cannot_be_read_is_still_a_refusal() {
    let mut generation = Generation::open(Script::Status(500, "boom"));
    loop {
        let producer = std::mem::replace(&mut generation.producer, Producer::Finished);
        match producer {
            Producer::Executing(execution) if execution.stage() == Stage::Refusal => {
                let failed = Attempt::Failed("body cut short".to_owned());
                match execution.attempted(&mut generation.handle, failed) {
                    ExecutionStep::End(item) => assert_eq!(
                        item,
                        Err(GenerationStreamError::Refused {
                            detail: "body cut short".to_owned()
                        })
                    ),
                    _ => panic!("the request is over"),
                }
                return;
            }
            other => generation.producer = other,
        }
        generation.step();
    }
}

#[test]
fn nothing_is_yielded_after_the_stream_ends() {
    let mut generation = Generation::open(Script::Chunks(vec![
        event("hi", None),
        terminal_with_usage(""),
        done(),
    ]));

    let (events, _) = generation.drain();
    assert!(matches!(events.last(), Some(GenerationEvent::Completed { .. })));
    assert!(generation.next().is_none(), "an event followed Completed");
    assert!(generation.next().is_none(), "the stream restarted");
}

#[test]
fn a_stream_only_counts_as_evidence_once_it_completes() {
    let mut generation = Generation::open(Script::Chunks(vec![
        event("hi", None),
        terminal_with_usage(""),
        done(),
    ]));

    assert!(
        !generation.stream.demonstrated_generation(),
        "an unread stream has demonstrated nothing"
    );

    let mut finished = false;
    while let Some(Ok(event)) = generation.next() {
        match event {
            GenerationEvent::TextDelta { .. } => assert!(
                !generation.stream.demonstrated_generation(),
                "a delta alone must not count: the backend may still fail"
            ),
            GenerationEvent::Completed { .. } => finished = true,
            GenerationEvent::Started { .. } => {}
            GenerationEvent::Cancelled { cause, .. } => {
                panic!("unexpected cancellation: {cause:?}")
            }
        }
    }

    assert!(finished);
    assert!(generation.stream.demonstrated_generation());
}

#[test]
fn a_completion_carrying_no_content_demonstrates_nothing() {
    let mut generation =
        Generation::open(Script::Chunks(vec![terminal_with_usage(""), done()]));

    let (events, failure) = generation.drain();
    assert!(failure.is_none(), "unexpected failure: {failure:?}");
    assert!(matches!(events.last(), Some(GenerationEvent::Completed { .. })));
    assert!(
        !generation.stream.demonstrated_generation(),
        "a completion with no text is not demonstrated generation"
    );
}

#[test]
fn a_reader_notices_at_its_next_event_that_nothing_is_reading() {
    let mut generation = Generation::open(Script::Chunks(vec![
        event("one", None),
        event("two", None),
        terminal_with_usage(""),
        done(),
    ]));
    assert!(generation.next().is_some());
    generation.consumer_gone = true;
    while !matches!(generation.producer, Producer::Finished) {
        generation.step();
    }
    assert_eq!(generation.handle.state(), RequestState::Cancelled);
    assert_eq!(
        generation.queue.pop_back(),
        Some(Ok(GenerationEvent::Cancelled {
            request_id: RequestId::from_raw(7),
            cause: CancellationCause::ConsumerGone,
        }))
    );
    assert_eq!(generation.chunks.len(), 3, "the rest of the body is never read");
}

// ------------------------------------------------------------------ cancellation

#[test]
fn a_request_cancelled_before_anything_arrives_ends_as_cancelled() {
    // The window where cancellation is most valuable and least observable: a large
    // prompt means the backend sends nothing for a long time.
    let mut generation = Generation::open_as(Script::Silent, 11);

    assert_eq!(
        generation.next(),
        Some(Ok(GenerationEvent::Started { request_id: RequestId::from_raw(11) }))
    );
    assert!(generation.handle.request_cancellation(CancellationCause::User));

    let (events, failure) = generation.drain();
    assert!(failure.is_none(), "cancelling is not a failure: {failure:?}");
    match events.last() {
        Some(GenerationEvent::Cancelled { cause, .. }) => {
            assert_eq!(*cause, CancellationCause::User);
        }
        other => panic!("expected a cancellation, got {other:?}"),
    }
    assert!(!generation.stream.demonstrated_generation());
}

#[test]
fn a_request_cancelled_after_content_keeps_what_arrived() {
    let mut generation =
        Generation::open_as(Script::ChunksThenSilence(vec![event("partial", None)]), 11);

    // Wait for real content, then stop.
    let mut text = String::new();
    while let Some(Ok(item)) = generation.next() {
        if let GenerationEvent::TextDelta { text: delta, .. } = item {
            text.push_str(&delta);
            break;
        }
    }
    assert_eq!(text, "partial");
    generation.handle.request_cancellation(CancellationCause::User);

    let (events, failure) = generation.drain();
    assert!(failure.is_none(), "unexpected failure: {failure:?}");
    assert!(matches!(events.last(), Some(GenerationEvent::Cancelled { .. })));
    assert!(
        !generation.stream.demonstrated_generation(),
        "a cancelled request is not evidence that generation works"
    );
}

#[test]
fn a_silent_backend_is_stopped_by_the_idle_budget() {
    let mut generation =
        Generation::open_as(Script::ChunksThenSilence(vec![event("one", None)]), 11);

    let (events, failure) = generation.drain();
    assert!(
        failure.is_none(),
        "an idle backend is stopped, not a failure: {failure:?}"
    );
    match events.last() {
        Some(GenerationEvent::Cancelled { cause, .. }) => {
            assert_eq!(
                *cause,
                CancellationCause::StreamIdleTimeout,
                "the cause must say it timed out rather than that someone asked"
            );
        }
        other => panic!("expected a cancellation, got {other:?}"),
    }
    assert!(
        events.iter().any(|event| matches!(event, GenerationEvent::TextDelta { .. })),
        "the delta that did arrive should still have been delivered"
    );
    assert_eq!(
        generation.handle.cancellation_cause(),
        Some(CancellationCause::StreamIdleTimeout)
    );
}

#[test]
fn a_backend_that_never_answers_is_stopped_by_the_idle_budget() {
    let mut generation = Generation::open_as(Script::NoHeaders, 11);
    let (events, failure) = generation.drain();
    assert!(failure.is_none(), "unexpected failure: {failure:?}");
    assert!(matches!(
        events.last(),
        Some(GenerationEvent::Cancelled { cause: CancellationCause::StreamIdleTimeout, .. })
    ));
}

#[test]
fn a_user_cancellation_beats_a_later_idle_timeout() {
    // Both use the same stopping machinery, and the cause must still say which one
    // actually stopped it.
    let mut generation = Generation::open_as(Script::Silent, 11);

    generation.handle.request_cancellation(CancellationCause::User);
    let (events, _) = generation.drain();
    match events.last() {
        Some(GenerationEvent::Cancelled { cause, .. }) => {
            assert_eq!(*cause, CancellationCause::User);
        }
        other => panic!("expected a cancellation, got {other:?}"),
    }
}

#[test]
fn a_silence_noticed_after_a_cancellation_reports_the_cancellation() {
    let mut handle = RequestHandle::new(RequestId::from_raw(11));
    let (sink, _, _) = generation_stream(&handle);
    handle.request_cancellation(CancellationCause::User);
    match GenerationReader::new(sink).waited(&mut handle, Waited::Silent) {
        ReadStep::End(item) => assert_eq!(
            item,
            Ok(GenerationEvent::Cancelled {
                request_id: RequestId::from_raw(11),
                cause: CancellationCause::User,
            })
        ),
        _ => panic!("silence ends the stream"),
    }
}

#[test]
fn cancelling_a_request_that_already_completed_changes_nothing() {
    let mut generation = Generation::open_as(
        Script::Chunks(vec![event("done", None), terminal_with_usage(""), done()]),
        11,
    );

    let (events, _) = generation.drain();
    assert!(matches!(events.last(), Some(GenerationEvent::Completed { .. })));
    assert!(
        !generation.handle.request_cancellation(CancellationCause::User),
        "a finished request cannot be cancelled"
    );
    assert_eq!(generation.handle.state(), RequestState::Completed);
    assert!(generation.next().is_none(), "an event followed the terminal one");
}

#[test]
fn a_request_cancelled_before_the_backend_answers_at_all_ends_as_cancelled() {
    // Cancelling before any response header exists. This is the whole
    // input-processing window, which for a large prompt is most of the request.
    let mut generation = Generation::open_as(Script::NoHeaders, 11);

    assert!(matches!(generation.next(), Some(Ok(GenerationEvent::Started { .. }))));
    assert_eq!(generation.handle.state(), RequestState::Starting);
    generation.handle.request_cancellation(CancellationCause::User);

    let (events, failure) = generation.drain();
    assert!(failure.is_none(), "cancelling is not a failure: {failure:?}");
    assert!(matches!(
        events.last(),
        Some(GenerationEvent::Cancelled { cause: CancellationCause::User, .. })
    ));
    assert_eq!(generation.handle.state(), RequestState::Cancelled);
}

#[test]
fn a_backend_that_dies_while_cancelling_still_reports_a_cancellation() {
    // Whichever the execution notices first must be the only terminal outcome, and a
    // failure must never be dressed up as a clean cancellation nor the reverse.
    let mut generation =
        Generation::open_as(Script::Chunks(vec![event("some", None)]), 11);

    generation.handle.request_cancellation(CancellationCause::User);
    let (events, failure) = generation.drain();

    let terminals = terminals(&events);
    assert!(terminals <= 1, "a request reported {terminals} terminal events");
    assert!(
        terminals == 1 || failure.is_some(),
        "the request ended with neither a terminal event nor a failure"
    );
    assert!(
        generation.handle.is_terminal(),
        "the request never reached a terminal state"
    );
}

#[test]
fn dropping_the_stream_is_not_a_cancellation() {
    // A consumer that stops reading has not asked for the work to stop. The request
    // must not silently report itself cancelled because a value went out of scope.
    let mut generation = Generation::open_as(Script::Silent, 11);
    generation.consumer_gone = true;
    while !generation.is_quiet() {
        generation.step();
    }
    let Generation { handle, stream, .. } = generation;
    drop(stream);

    assert_eq!(
        handle.cancellation_cause(),
        None,
        "dropping a stream must not record a cancellation cause"
    );
    assert_ne!(
        handle.state(),
        RequestState::Cancelled,
        "dropping a stream must not mark the request cancelled"
    );
}

#[test]
fn a_request_reports_exactly_one_terminal_outcome_when_cancel_races_completion() {
    // The cancellation is made to arrive before every step the request can take, so
    // that every winner of the race occurs.
    let mut outcomes = Vec::new();
    for steps in 0..25 {
        let mut generation = Generation::open_as(
            Script::Chunks(vec![event("racing", None), terminal_with_usage(""), done()]),
            11,
        );
        for _ in 0..steps {
            generation.step();
        }
        generation.handle.request_cancellation(CancellationCause::User);

        let (events, failure) = generation.drain();
        let terminals = terminals(&events);
        assert!(terminals <= 1, "{steps} steps produced {terminals} terminal events");
        assert!(
            terminals == 1 || failure.is_some(),
            "{steps} steps ended with neither a terminal event nor a failure"
        );
        assert!(generation.handle.is_terminal());
        outcomes.push(generation.handle.state());
    }
    assert!(outcomes.contains(&RequestState::Cancelled));
    assert!(outcomes.contains(&RequestState::Completed));
}
