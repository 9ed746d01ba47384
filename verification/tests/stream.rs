use mehoy::cancel::{CancellationCause, RequestHandle, RequestState};
use mehoy::id::RequestId;
use mehoy::inference::{FinishReason, GenerationUsage};
use mehoy::stream::{
    generation_stream, GenerationEvent, GenerationOutcome, GenerationSink, GenerationStream,
    GenerationStreamError, GenerationSummary, StreamItem, GENERATION_STREAM_BUFFER,
};

/// Both halves of a stream with the queue between them.
struct Pair {
    handle: RequestHandle,
    sink: Option<GenerationSink>,
    stream: GenerationStream,
    queue: Vec<StreamItem>,
}

impl Pair {
    fn open() -> Pair {
        let handle = RequestHandle::new(RequestId::from_raw(1));
        let (sink, stream, opening) = generation_stream(&handle);
        Pair { handle, sink: Some(sink), stream, queue: vec![opening] }
    }

    fn delta(&mut self, text: &str) {
        let sink = self.sink.as_ref().expect("a producer");
        if let Some(item) = sink.delta(text.to_owned()) {
            self.queue.push(item);
        }
    }

    fn complete(&mut self) {
        let sink = self.sink.take().expect("a producer");
        self.queue.push(sink.complete(&mut self.handle, summary()));
    }

    fn fail(&mut self, error: GenerationStreamError) {
        let sink = self.sink.take().expect("a producer");
        self.queue.push(sink.fail(&mut self.handle, error));
    }

    fn cancel(&mut self, cause: CancellationCause) {
        let sink = self.sink.take().expect("a producer");
        self.queue.push(sink.cancel(&mut self.handle, cause));
    }

    fn next(&mut self) -> Option<StreamItem> {
        let received = if self.queue.is_empty() { None } else { Some(self.queue.remove(0)) };
        self.stream.next(&mut self.handle, received)
    }

    fn collect(&mut self) -> Result<GenerationOutcome, GenerationStreamError> {
        let queue = self.queue.split_off(0);
        self.stream.collect(&mut self.handle, queue)
    }
}

fn summary() -> GenerationSummary {
    GenerationSummary { finish_reason: FinishReason::Stop, usage: None }
}

fn id() -> RequestId {
    RequestId::from_raw(1)
}

#[test]
fn a_stream_starts_before_a_producer_does_anything() {
    // The opening is queued when the stream is created rather than sent by the
    // producer, so it cannot be forgotten, duplicated, or sent late.
    let mut pair = Pair::open();
    drop(pair.sink.take());
    assert_eq!(pair.next(), Some(Ok(GenerationEvent::Started { request_id: id() })));
}

#[test]
fn a_producer_that_vanishes_is_reported_rather_than_silently_ending() {
    // A dropped producer, including one whose task panicked, must not look like a
    // stream that finished.
    let mut pair = Pair::open();
    pair.delta("partial");
    drop(pair.sink.take());

    assert!(matches!(pair.next(), Some(Ok(_))));
    assert!(matches!(pair.next(), Some(Ok(_))));
    assert!(matches!(
        pair.next(),
        Some(Err(GenerationStreamError::UnexpectedEnd { .. }))
    ));
    assert!(!pair.stream.demonstrated_generation());
    assert_eq!(pair.handle.state(), RequestState::Failed);
}

#[test]
fn a_failed_stream_is_not_evidence_even_after_delivering_content() {
    // Content followed by a failure is a truncated answer, not a demonstration.
    let mut pair = Pair::open();
    pair.delta("some text");
    pair.fail(GenerationStreamError::Transport { detail: "reset".to_owned() });

    while let Some(item) = pair.next() {
        if item.is_err() {
            break;
        }
    }
    assert!(!pair.stream.demonstrated_generation());
    assert_eq!(pair.handle.state(), RequestState::Failed);
}

#[test]
fn empty_deltas_are_dropped_by_the_producer() {
    let mut pair = Pair::open();
    pair.delta("");
    pair.delta("real");
    pair.delta("");
    pair.complete();

    let mut kinds = Vec::new();
    while let Some(Ok(event)) = pair.next() {
        kinds.push(event);
    }
    assert_eq!(kinds.len(), 3, "expected Started, one delta, Completed");
    assert!(pair.stream.demonstrated_generation());
}

#[test]
fn a_completion_with_no_deltas_demonstrates_nothing() {
    let mut pair = Pair::open();
    pair.complete();
    while pair.next().is_some() {}
    assert!(
        !pair.stream.demonstrated_generation(),
        "completing without content is not demonstrated generation"
    );
}

#[test]
fn collecting_a_stream_rebuilds_the_whole_result() {
    let mut pair = Pair::open();
    pair.delta("Hel");
    pair.delta("lo");
    pair.complete();

    let outcome = pair.collect().expect("completes");
    let result = outcome.completed().expect("a completion, not a cancellation");
    assert_eq!(result.text, "Hello");
    assert_eq!(result.finish_reason, FinishReason::Stop);
    assert_eq!(outcome.text(), "Hello");
}

#[test]
fn collecting_a_truncated_stream_is_an_error_rather_than_a_partial_result() {
    let mut pair = Pair::open();
    pair.delta("half an answer");
    drop(pair.sink.take());
    assert!(pair.collect().is_err());
    assert_eq!(pair.handle.state(), RequestState::Failed);
}

#[test]
fn collecting_a_stopped_stream_keeps_the_text_and_the_cause() {
    let mut pair = Pair::open();
    pair.delta("half");
    pair.cancel(CancellationCause::User);
    let outcome = pair.collect().expect("a stop is not an error");
    assert_eq!(
        outcome,
        GenerationOutcome::Cancelled { text: "half".to_owned(), cause: CancellationCause::User }
    );
    assert_eq!(outcome.completed(), None);
    assert_eq!(pair.stream.cancellation(), Some(CancellationCause::User));
    assert_eq!(pair.handle.state(), RequestState::Cancelled);
}

#[test]
fn collecting_a_failed_stream_gives_its_failure() {
    let mut pair = Pair::open();
    pair.delta("half");
    pair.fail(GenerationStreamError::Refused { detail: "no".to_owned() });
    assert_eq!(
        pair.collect(),
        Err(GenerationStreamError::Refused { detail: "no".to_owned() })
    );
}

#[test]
fn a_stream_yields_nothing_after_its_end() {
    let mut pair = Pair::open();
    pair.delta("x");
    pair.complete();
    let mut ended = 0;
    for _ in 0..10 {
        match pair.next() {
            Some(Ok(event)) => assert_eq!(event.request_id(), id()),
            Some(Err(error)) => panic!("{}", error.to_string()),
            None => ended += 1,
        }
    }
    assert_eq!(ended, 7);
    assert!(pair.stream.is_finished());
    assert_eq!(pair.handle.state(), RequestState::Completed);
    // What arrives late is not yielded either.
    let late = Some(Ok(GenerationEvent::Started { request_id: id() }));
    assert_eq!(pair.stream.next(&mut pair.handle, late), None);
}

#[test]
fn both_halves_belong_to_the_same_request() {
    let handle = RequestHandle::new(RequestId::from_raw(9));
    let (sink, stream, opening) = generation_stream(&handle);
    assert_eq!(sink.request_id(), RequestId::from_raw(9));
    assert_eq!(stream.request_id(), RequestId::from_raw(9));
    assert_eq!(
        sink.delta("x".to_owned()),
        Some(Ok(GenerationEvent::TextDelta {
            request_id: RequestId::from_raw(9),
            text: "x".to_owned(),
        }))
    );
    assert!(matches!(opening, Ok(GenerationEvent::Started { .. })));
    assert_eq!(GENERATION_STREAM_BUFFER, 32);
}

#[test]
fn the_counts_of_a_completion_are_carried_through() {
    let mut handle = RequestHandle::new(id());
    let (sink, mut stream, opening) = generation_stream(&handle);
    let usage = Some(GenerationUsage { input_tokens: 3, output_tokens: 4 });
    let end = sink.complete(
        &mut handle,
        GenerationSummary { finish_reason: FinishReason::Length, usage },
    );
    let outcome = stream.collect(&mut handle, vec![opening, end]).expect("completes");
    let result = outcome.completed().expect("a completion");
    assert_eq!(result.usage, usage);
    assert_eq!(result.finish_reason, FinishReason::Length);
    assert_eq!(result.text, "");
}

#[test]
fn stream_failures_are_told_apart_in_words() {
    let detail = || "why".to_owned();
    let failures = [
        GenerationStreamError::Refused { detail: detail() },
        GenerationStreamError::MalformedEvent { detail: detail() },
        GenerationStreamError::UnexpectedEnd { detail: detail() },
        GenerationStreamError::Transport { detail: detail() },
    ];
    for (i, a) in failures.iter().enumerate() {
        assert!(a.to_string().ends_with("why"), "{}", a.to_string());
        for (j, b) in failures.iter().enumerate() {
            assert_eq!(a.to_string() == b.to_string(), i == j);
        }
    }
}
