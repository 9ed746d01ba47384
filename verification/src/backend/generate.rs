//! The text generation adapter.
//!
//! Translates the runtime's request and result types to and from the engine's wire
//! format, and drives one streaming generation: [`Execution`] gets a request to the
//! backend, [`GenerationReader`] turns the response body into stream items. Both are
//! state machines. Whoever drives them performs the work a step asks for and hands
//! back what came of it; a step that ends the stream gives up the machine with it,
//! so there is one end.
//!
//! However the network cuts a response into reads, the same items come out
//! ([`chunking_makes_no_difference_to_a_generation`]), and a response that reported
//! no finish reason is never taken for a finished one
//! ([`a_generation_ends_once_and_completes_only_when_told_why`]).

use vstd::prelude::*;
use vstd::string::*;
use vstd::utf8::*;

use crate::cancel::{
    request_after, signalled, CancellationCause, CancellationStrategy, RequestHandle, RequestState,
    RequestStep, RequestView,
};
use crate::http::{is_success, success};
use crate::id::RequestId;
use crate::inference::{
    FinishReason, GenerateTextRequest, GenerationResult, GenerationUsage, Reason, Temperature,
};
use crate::backend::sse::{
    any_chunking_gives_the_same_events, event_text, feed, in_one_line, is_sendable, joined,
    line_extent, nothing_held, run, run_chunks, what_is_sent_arrives, written_event,
    written_events, SseDecoder, SseState,
};
use crate::stream::{
    collected, is_last, item_view, Collected, Event, GenerationSink, GenerationStreamError,
    GenerationSummary, Item, StreamFault, StreamItem, Summary,
};
use crate::text::{
    all_space, chars_of, decimal, decimal_u64, lossy_text, opt_text, replaced_text, same_text,
    same_words, string_of, texts, trim, trimmed, trimming_takes_white_space_alone,
    trimming_undoes_padding, white_space_does_not_print, words_stay,
};

verus! {

/// The engine's completion path.
pub const COMPLETIONS_PATH: &'static str = "/v1/completions";

/// How long one generation request may take, in seconds. A transport ceiling, not a
/// substitute for a caller's own token budget.
pub const REQUEST_BUDGET_SECONDS: u64 = 300;

/// Why a generation request failed.
#[derive(Debug, Clone, PartialEq, Eq)]
pub enum GenerateError {
    /// The backend was not started in a mode that generates text.
    NotSupported { detail: String },
    /// The backend refused the credential.
    Unauthorised { status: u16 },
    /// The backend answered with a failure status.
    Rejected { status: u16, detail: String },
    /// The backend's response could not be understood.
    MalformedResponse { detail: String },
    /// The request could not be delivered.
    Transport { detail: String },
}

/// What a failed request says.
pub enum RequestFault {
    NotSupported { detail: Seq<char> },
    Unauthorised { status: u16 },
    Rejected { status: u16, detail: Seq<char> },
    MalformedResponse { detail: Seq<char> },
    Transport { detail: Seq<char> },
}

/// A failed generation request in words.
pub open spec fn generate_fault_text(fault: RequestFault) -> Seq<char> {
    match fault {
        RequestFault::NotSupported { detail } =>
            "the backend does not generate text as started: "@ + detail,
        RequestFault::Unauthorised { status } => "the backend refused the runtime's credential ("@
            + decimal(status as nat) + ")"@,
        RequestFault::Rejected { status, detail } => "the backend rejected the request ("@
            + decimal(status as nat) + "): "@ + detail,
        RequestFault::MalformedResponse { detail } =>
            "the backend's generation response was not usable: "@ + detail,
        RequestFault::Transport { detail } => "the generation request failed: "@ + detail,
    }
}

impl GenerateError {
    pub open spec fn view(&self) -> RequestFault {
        match self {
            GenerateError::NotSupported { detail } => RequestFault::NotSupported {
                detail: detail@,
            },
            GenerateError::Unauthorised { status } => RequestFault::Unauthorised {
                status: *status,
            },
            GenerateError::Rejected { status, detail } => RequestFault::Rejected {
                status: *status,
                detail: detail@,
            },
            GenerateError::MalformedResponse { detail } => RequestFault::MalformedResponse {
                detail: detail@,
            },
            GenerateError::Transport { detail } => RequestFault::Transport { detail: detail@ },
        }
    }

    pub fn to_string(&self) -> (text: String)
        ensures
            text@ == generate_fault_text(self@),
    {
        match self {
            GenerateError::NotSupported { detail } => {
                let mut text = "the backend does not generate text as started: ".to_owned();
                text.append(detail.as_str());
                text
            },
            GenerateError::Unauthorised { status } => {
                let mut text = "the backend refused the runtime's credential (".to_owned();
                text.append(decimal_u64(*status as u64).as_str());
                text.append(")");
                text
            },
            GenerateError::Rejected { status, detail } => {
                let mut text = "the backend rejected the request (".to_owned();
                text.append(decimal_u64(*status as u64).as_str());
                text.append("): ");
                text.append(detail.as_str());
                text
            },
            GenerateError::MalformedResponse { detail } => {
                let mut text = "the backend's generation response was not usable: ".to_owned();
                text.append(detail.as_str());
                text
            },
            GenerateError::Transport { detail } => {
                let mut text = "the generation request failed: ".to_owned();
                text.append(detail.as_str());
                text
            },
        }
    }
}

/// The wire request. A field that is `None`, an empty stop list and a `stream` that
/// is false are left out of the encoding, so that a caller's silence stays
/// distinguishable from a value.
#[derive(Debug, Clone, PartialEq, Eq)]
pub struct WireRequest {
    pub prompt: String,
    pub n_predict: Option<u32>,
    pub temperature: Option<Temperature>,
    pub seed: Option<u64>,
    pub stop: Vec<String>,
    pub stream: bool,
}

/// Whether a wire request leaves the streaming flag out.
pub fn is_unset(streaming: &bool) -> (unset: bool)
    ensures
        unset == !*streaming,
{
    !*streaming
}

fn copy_temperature(temperature: &Option<Temperature>) -> (copy: Option<Temperature>)
    ensures
        copy is Some <==> temperature is Some,
        copy matches Some(t) ==> t.bits == temperature->0.bits && t.shown@
            == temperature->0.shown@,
{
    match temperature {
        Some(t) => Some(Temperature { bits: t.bits, shown: t.shown.clone() }),
        None => None,
    }
}

/// The wire form of a request: exactly what the caller set, and nothing it did not.
pub fn wire_request(request: &GenerateTextRequest, stream: bool) -> (wire: WireRequest)
    ensures
        wire.prompt@ == request.input@,
        wire.n_predict == request.parameters.max_output_tokens,
        wire.temperature is Some <==> request.parameters.temperature is Some,
        wire.temperature matches Some(t) ==> t.bits == request.parameters.temperature->0.bits
            && t.shown@ == request.parameters.temperature->0.shown@,
        wire.seed == request.parameters.seed,
        texts(wire.stop@) == texts(request.parameters.stop@),
        wire.stop@.len() == request.parameters.stop@.len(),
        forall|i: int|
            0 <= i < wire.stop@.len() ==> (#[trigger] wire.stop@[i])@
                == request.parameters.stop@[i]@,
        wire.stream == stream,
{
    let p = &request.parameters;
    let mut stop: Vec<String> = Vec::new();
    let mut i: usize = 0;
    while i < p.stop.len()
        invariant
            i <= p.stop@.len(),
            stop@.len() == i,
            forall|j: int| 0 <= j < i ==> (#[trigger] stop@[j])@ == p.stop@[j]@,
        decreases p.stop@.len() - i,
    {
        stop.push(p.stop[i].clone());
        i = i + 1;
    }
    assert(texts(stop@) =~= texts(p.stop@));
    WireRequest {
        prompt: request.input.as_str().to_owned(),
        n_predict: p.max_output_tokens,
        temperature: copy_temperature(&p.temperature),
        seed: p.seed,
        stop,
        stream,
    }
}

/// The engine's answer, whole or one event of a stream.
#[derive(Debug, Clone, PartialEq, Eq)]
pub struct WireResponse {
    pub choices: Vec<WireChoice>,
    pub usage: Option<WireUsage>,
}

#[derive(Debug, Clone, PartialEq, Eq)]
pub struct WireChoice {
    pub text: String,
    pub finish_reason: Option<String>,
}

#[derive(Debug, Clone, Copy, PartialEq, Eq, Structural)]
pub struct WireUsage {
    pub prompt_tokens: u64,
    pub completion_tokens: u64,
}

/// The body of an error answer.
#[derive(Debug, Clone, PartialEq, Eq)]
pub struct WireErrorBody {
    pub message: String,
    pub kind: String,
}

/// What a [`WireChoice`] says.
pub struct Choice {
    pub text: Seq<char>,
    pub finish_reason: Option<Seq<char>>,
}

/// What a [`WireResponse`] says.
pub struct Reply {
    pub choices: Seq<Choice>,
    pub usage: Option<WireUsage>,
}

impl WireChoice {
    pub open spec fn view(&self) -> Choice {
        Choice { text: self.text@, finish_reason: opt_text(self.finish_reason) }
    }
}

impl WireResponse {
    pub open spec fn view(&self) -> Reply {
        Reply {
            choices: self.choices@.map_values(|c: WireChoice| c@),
            usage: self.usage,
        }
    }
}

/// What came of decoding an answer.
pub open spec fn reply_view(decoded: Result<WireResponse, String>) -> Result<Reply, Seq<char>> {
    match decoded {
        Ok(wire) => Ok(wire@),
        Err(reason) => Err(reason@),
    }
}

/// The engine's counts as the runtime's.
pub open spec fn usage_of(usage: Option<WireUsage>) -> Option<GenerationUsage> {
    match usage {
        Some(u) => Some(
            GenerationUsage {
                input_tokens: u.prompt_tokens,
                output_tokens: u.completion_tokens,
            },
        ),
        None => None,
    }
}

/// Whether counts are carried over: those of the prompt as the input's, those of the
/// completion as the output's, and none where none were reported.
pub open spec fn counts_carry_over(
    reported: Option<WireUsage>,
    usage: Option<GenerationUsage>,
) -> bool {
    &&& usage is Some <==> reported is Some
    &&& reported is Some ==> usage->0.input_tokens == reported->0.prompt_tokens
        && usage->0.output_tokens == reported->0.completion_tokens
}

/// Counts are carried over, and a reported reason is what it says: `stop`, `length`, or
/// itself.
pub proof fn what_was_reported_is_carried_over(usage: Option<WireUsage>, reported: Seq<char>)
    ensures
        counts_carry_over(usage, usage_of(usage)),
        reason_of(Some(reported)) is Stop <==> reported == "stop"@,
        reason_of(Some(reported)) is Length <==> reported == "length"@,
        reported != "stop"@ && reported != "length"@ ==> reason_of(Some(reported))
            == Reason::Other(reported),
        reason_of(None) is Other,
{
    reveal_strlit("stop");
    reveal_strlit("length");
    assert("stop"@.len() != "length"@.len());
}

fn usage_for(usage: Option<WireUsage>) -> (mapped: Option<GenerationUsage>)
    ensures
        mapped == usage_of(usage),
        counts_carry_over(usage, mapped),
{
    match usage {
        Some(u) => Some(
            GenerationUsage {
                input_tokens: u.prompt_tokens,
                output_tokens: u.completion_tokens,
            },
        ),
        None => None,
    }
}

/// What a reported finish reason means.
pub open spec fn reason_of(reported: Option<Seq<char>>) -> Reason {
    match reported {
        Some(reason) => if reason == "stop"@ {
            Reason::Stop
        } else if reason == "length"@ {
            Reason::Length
        } else {
            Reason::Other(reason)
        },
        None => Reason::Other("unreported"@),
    }
}

/// Maps the engine's finish reason onto the runtime's. An unrecognised reason is
/// carried through.
pub fn finish_reason_for(reported: Option<&str>) -> (reason: FinishReason)
    ensures
        reason@ == match reported {
            Some(text) => reason_of(Some(text@)),
            None => reason_of(None),
        },
        reason is Stop <==> (reported matches Some(text) && text@ == "stop"@),
        reason is Length <==> (reported matches Some(text) && text@ == "length"@),
        reason matches FinishReason::Other(other) ==> match reported {
            Some(text) => other@ == text@,
            None => other@ == "unreported"@,
        },
{
    proof {
        reveal_strlit("stop");
        reveal_strlit("length");
        assert("stop"@.len() != "length"@.len());
    }
    match reported {
        Some(text) => if same_text(text, "stop") {
            FinishReason::Stop
        } else if same_text(text, "length") {
            FinishReason::Length
        } else {
            FinishReason::Other(text.to_owned())
        },
        None => FinishReason::Other("unreported".to_owned()),
    }
}

/// What a failure status means, given the message and kind its body reported.
pub open spec fn refusal(status: u16, message: Seq<char>, kind: Seq<char>) -> RequestFault {
    if status == 401 || status == 403 {
        RequestFault::Unauthorised { status }
    } else if status == 501 || kind == "not_supported_error"@ {
        RequestFault::NotSupported { detail: message }
    } else {
        RequestFault::Rejected { status, detail: message }
    }
}

/// What a failure answer means: a body that is not the engine's error shape is its
/// own message.
pub open spec fn refused_as(
    status: u16,
    error: Option<WireErrorBody>,
    body: Seq<u8>,
) -> RequestFault {
    match error {
        Some(e) => refusal(status, e.message@, e.kind@),
        None => refusal(status, replaced_text(body), Seq::empty()),
    }
}

/// Whether a failure says what a refused request was refused for: a credential that was
/// refused by its status, a task that the backend does not serve by its status or by the
/// kind of error it reported, and anything else by both; with the message that was
/// reported, or the body where none was.
pub open spec fn is_classified(
    fault: RequestFault,
    status: u16,
    error: Option<WireErrorBody>,
    body: Seq<u8>,
) -> bool {
    let unsupported = status == 501 || (error matches Some(e) && e.kind@
        == "not_supported_error"@);
    let message = match error {
        Some(e) => e.message@,
        None => replaced_text(body),
    };
    match fault {
        RequestFault::Unauthorised { status: s } => s == status && (status == 401 || status
            == 403),
        RequestFault::NotSupported { detail } => unsupported && status != 401 && status != 403
            && detail == message,
        RequestFault::Rejected { status: s, detail } => !unsupported && status != 401 && status
            != 403 && s == status && detail == message,
        _ => false,
    }
}

/// Every refusal is told apart by what the backend answered.
pub proof fn a_refusal_is_told_apart(status: u16, error: Option<WireErrorBody>, body: Seq<u8>)
    ensures
        is_classified(refused_as(status, error, body), status, error, body),
{
    reveal_strlit("not_supported_error");
    assert("not_supported_error"@.len() != Seq::<char>::empty().len());
}

/// The message and kind that the body of a failure answer reports.
pub(crate) fn error_report(error: Option<WireErrorBody>, body: &[u8]) -> (report: (String, String))
    ensures
        match error {
            Some(e) => report.0@ == e.message@ && report.1@ == e.kind@,
            None => report.0@ == replaced_text(body@) && report.1@.len() == 0,
        },
{
    match error {
        Some(e) => (e.message, e.kind),
        None => (lossy_text(body), String::new()),
    }
}

/// Turns a failure answer into the most specific error its body supports. `error` is
/// the engine's error shape, when the body had it.
pub fn classify(status: u16, error: Option<WireErrorBody>, body: &[u8]) -> (fault: GenerateError)
    ensures
        fault@ == refused_as(status, error, body@),
        is_classified(fault@, status, error, body@),
{
    proof {
        a_refusal_is_told_apart(status, error, body@);
    }
    let (message, kind) = error_report(error, body);
    proof {
        assert(error is None ==> kind@ =~= Seq::empty());
    }
    if status == 401 || status == 403 {
        GenerateError::Unauthorised { status }
    } else if status == 501 || same_text(kind.as_str(), "not_supported_error") {
        GenerateError::NotSupported { detail: message }
    } else {
        GenerateError::Rejected { status, detail: message }
    }
}

/// What came of sending a request and waiting for its answer.
#[derive(Debug, PartialEq, Eq)]
pub enum Exchange<T> {
    /// The request could not be encoded.
    Unencodable(String),
    /// Nothing came back in time.
    TimedOut,
    /// The transport failed.
    Failed(String),
    /// The backend answered. The body is given as it came, and as what could be made
    /// of it: the engine's error shape where the status is a failure, the decoded
    /// answer where it is a success.
    Answered {
        status: u16,
        body: Vec<u8>,
        error: Option<WireErrorBody>,
        decoded: Result<T, String>,
    },
}

/// What a generation request came to.
pub open spec fn generated(exchange: Exchange<WireResponse>) -> Result<
    (Seq<char>, Summary),
    RequestFault,
> {
    match exchange {
        Exchange::Unencodable(reason) => Err(
            RequestFault::MalformedResponse { detail: "cannot encode the request: "@ + reason@ },
        ),
        Exchange::TimedOut => Err(RequestFault::Transport { detail: "no response within 300s"@ }),
        Exchange::Failed(reason) => Err(RequestFault::Transport { detail: reason@ }),
        Exchange::Answered { status, body, error, decoded } => if !success(status) {
            Err(refused_as(status, error, body@))
        } else {
            match reply_view(decoded) {
                Err(reason) => Err(RequestFault::MalformedResponse { detail: reason }),
                Ok(reply) => if reply.choices.len() == 0 {
                    Err(
                        RequestFault::MalformedResponse {
                            detail: "the response contained no choices"@,
                        },
                    )
                } else {
                    Ok(
                        (
                            reply.choices[0].text,
                            Summary {
                                finish_reason: reason_of(reply.choices[0].finish_reason),
                                usage: usage_of(reply.usage),
                            },
                        ),
                    )
                },
            }
        },
    }
}

/// The outcome of a generation request that was sent and waited for.
pub fn generate(exchange: Exchange<WireResponse>) -> (outcome: Result<
    GenerationResult,
    GenerateError,
>)
    ensures
        match (outcome, generated(exchange)) {
            (Ok(result), Ok((text, summary))) => result.text@ == text && result.finish_reason@
                == summary.finish_reason && result.usage == summary.usage,
            (Err(error), Err(fault)) => error@ == fault,
            _ => false,
        },
        outcome is Ok <==> (exchange is Answered && 200 <= exchange->Answered_status < 300
            && exchange->Answered_decoded is Ok
            && exchange->Answered_decoded->Ok_0.choices@.len() > 0),
        outcome matches Ok(result) ==> {
            let wire = exchange->Answered_decoded->Ok_0;
            &&& result.text@ == wire.choices@[0].text@
            &&& counts_carry_over(wire.usage, result.usage)
            &&& match wire.choices@[0].finish_reason {
                Some(reported) => {
                    &&& result.finish_reason is Stop <==> reported@ == "stop"@
                    &&& result.finish_reason is Length <==> reported@ == "length"@
                    &&& result.finish_reason matches FinishReason::Other(other) ==> other@
                        == reported@
                },
                None => result.finish_reason is Other,
            }
        },
{
    match exchange {
        Exchange::Unencodable(reason) => {
            let mut detail = "cannot encode the request: ".to_owned();
            detail.append(reason.as_str());
            Err(GenerateError::MalformedResponse { detail })
        },
        Exchange::TimedOut => Err(
            GenerateError::Transport { detail: "no response within 300s".to_owned() },
        ),
        Exchange::Failed(reason) => Err(GenerateError::Transport { detail: reason }),
        Exchange::Answered { status, body, error, decoded } => {
            if !is_success(status) {
                return Err(classify(status, error, body.as_slice()));
            }
            match decoded {
                Err(reason) => Err(GenerateError::MalformedResponse { detail: reason }),
                Ok(wire) => {
                    let ghost reply = wire@;
                    match first_choice(wire.choices) {
                        None => Err(
                            GenerateError::MalformedResponse {
                                detail: "the response contained no choices".to_owned(),
                            },
                        ),
                        Some(choice) => Ok(
                            GenerationResult {
                                finish_reason: reported_reason(&choice),
                                text: choice.text,
                                usage: usage_for(wire.usage),
                            },
                        ),
                    }
                },
            }
        },
    }
}

/// The first choice of an answer, if it has one.
fn first_choice(choices: Vec<WireChoice>) -> (first: Option<WireChoice>)
    ensures
        match first {
            Some(choice) => choices@.len() > 0 && choice == choices@[0],
            None => choices@.len() == 0,
        },
{
    let mut choices = choices;
    if choices.len() == 0 {
        None
    } else {
        Some(choices.remove(0))
    }
}

fn reported_reason(choice: &WireChoice) -> (reason: FinishReason)
    ensures
        reason@ == reason_of(choice@.finish_reason),
        match choice.finish_reason {
            Some(reported) => {
                &&& reason is Stop <==> reported@ == "stop"@
                &&& reason is Length <==> reported@ == "length"@
                &&& reason matches FinishReason::Other(other) ==> other@ == reported@
            },
            None => reason is Other,
        },
{
    match &choice.finish_reason {
        Some(reported) => finish_reason_for(Some(reported.as_str())),
        None => finish_reason_for(None),
    }
}

/// How this engine can be made to stop work. It exposes no cancellation route:
/// closing the request's transport is the only signal it responds to, which is why
/// every generation has a connection of its own.
pub fn cancellation_strategy() -> (strategy: CancellationStrategy)
    ensures
        strategy == CancellationStrategy::ConnectionAbort,
{
    CancellationStrategy::ConnectionAbort
}

// ---------------------------------------------------------------------------
// Reading a response body.

/// How many characters of an unparseable event are shown.
pub const SHOWN: usize = 120;

/// The beginning of a payload, marked where something was left out.
pub open spec fn excerpt(payload: Seq<char>) -> Seq<char> {
    if payload.len() > SHOWN {
        payload.take(SHOWN as int) + "..."@
    } else {
        payload
    }
}

/// Describes an unparseable event without quoting all of it.
pub fn describe(error: &str, payload: &str) -> (text: String)
    ensures
        text@ == error@ + ", in: "@ + excerpt(payload@),
{
    let chars = chars_of(payload);
    let mut text = error.to_owned();
    text.append(", in: ");
    if chars.len() > SHOWN {
        let shown = string_of(vstd::slice::slice_subrange(chars.as_slice(), 0, SHOWN));
        assert(shown@ =~= payload@.take(SHOWN as int));
        text.append(shown.as_str());
        text.append("...");
        assert(text@ =~= error@ + ", in: "@ + excerpt(payload@));
    } else {
        text.append(payload);
    }
    text
}

/// How the response body stopped producing events.
#[derive(Debug, Clone, Copy, PartialEq, Eq, Structural)]
pub enum EndOfBody {
    /// The engine sent its end-of-stream marker.
    Marked,
    /// The body ended without one.
    Closed,
}

/// What came of waiting for more of a response.
///
/// A consumer that stops reading has not asked for the work to stop, so its absence
/// is not among these: it is noticed when there is next something to hand over.
#[derive(Debug, Clone, PartialEq, Eq)]
pub enum Waited {
    /// The request's signal was set.
    Cancelled(CancellationCause),
    /// Nothing arrived within the idle budget.
    Silent,
    /// The body ended.
    Closed,
    /// The body could not be read.
    Failed(String),
    /// Bytes of the body arrived.
    Data(Vec<u8>),
    /// Something other than bytes of the body arrived.
    Other,
}

/// Where a reader is.
pub struct ReadState {
    pub request_id: RequestId,
    pub sse: SseState,
    /// Events that arrived and have not been looked at, in order.
    pub pending: Seq<Seq<char>>,
    /// Why generation stopped and its counts, once reported.
    pub terminal: Option<Summary>,
}

/// What a reader wants done next.
pub enum ReadNext {
    Wait(ReadState),
    Parse(ReadState, Seq<char>),
    Send(ReadState, Item),
    End(Item),
}

/// The item that ends a stream whose body ended.
pub open spec fn end_item(s: ReadState, end: EndOfBody) -> Item {
    match s.terminal {
        Some(summary) => Ok(Event::Completed { request_id: s.request_id, summary }),
        None => Err(
            StreamFault::UnexpectedEnd {
                detail: match end {
                    EndOfBody::Marked =>
                        "the backend ended the stream without reporting why generation stopped"@,
                    EndOfBody::Closed => if s.sse.buffer.len() > 0 || s.sse.has_data {
                        "the backend closed the connection part way through an event"@
                    } else {
                        "the backend closed the connection before completing"@
                    },
                },
            },
        ),
    }
}

/// Whether a payload is the marker this engine sends after its final event.
pub open spec fn is_done_marker(payload: Seq<char>) -> bool {
    trimmed(payload) == "[DONE]"@
}

/// Looks at the next event that arrived, or asks for more.
pub open spec fn advanced(s: ReadState) -> ReadNext {
    if s.pending.len() == 0 {
        ReadNext::Wait(s)
    } else {
        let rest = ReadState { pending: s.pending.drop_first(), ..s };
        if is_done_marker(s.pending[0]) {
            ReadNext::End(end_item(rest, EndOfBody::Marked))
        } else {
            ReadNext::Parse(rest, s.pending[0])
        }
    }
}

/// What a silence is reported as: itself, unless something stopped the request
/// first.
pub open spec fn silence_cause(signal: Option<CancellationCause>) -> CancellationCause {
    match signalled(signal, CancellationCause::StreamIdleTimeout) {
        Some(cause) => cause,
        None => CancellationCause::StreamIdleTimeout,
    }
}

pub open spec fn cancelled_item(s: ReadState, cause: CancellationCause) -> Item {
    Ok(Event::Cancelled { request_id: s.request_id, cause })
}

/// A reader after waiting. `signal` is the request's cause for stopping, if any.
pub open spec fn after_wait(
    s: ReadState,
    signal: Option<CancellationCause>,
    waited: Waited,
) -> ReadNext {
    match waited {
        Waited::Cancelled(cause) => ReadNext::End(cancelled_item(s, cause)),
        Waited::Silent => ReadNext::End(cancelled_item(s, silence_cause(signal))),
        Waited::Closed => ReadNext::End(end_item(s, EndOfBody::Closed)),
        Waited::Failed(reason) => ReadNext::End(
            Err(StreamFault::Transport { detail: reason@ }),
        ),
        Waited::Data(bytes) => after_data(s, bytes@),
        Waited::Other => ReadNext::Wait(s),
    }
}

/// A reader after bytes of the body arrived.
pub open spec fn after_data(s: ReadState, bytes: Seq<u8>) -> ReadNext {
    let got = run(feed(s.sse, bytes));
    match got.error {
        Some(detail) => ReadNext::End(Err(StreamFault::MalformedEvent { detail })),
        None => advanced(ReadState { sse: got.state, pending: s.pending + got.events, ..s }),
    }
}

/// A reader after it learnt what an event says. A finish reason is noted before the
/// text is handed over, so an event that carries both still reports why generation
/// stopped.
pub open spec fn after_parse(
    s: ReadState,
    payload: Seq<char>,
    reply: Result<Reply, Seq<char>>,
) -> ReadNext {
    match reply {
        Err(reason) => ReadNext::End(
            Err(
                StreamFault::MalformedEvent {
                    detail: reason + ", in: "@ + excerpt(payload),
                },
            ),
        ),
        Ok(reply) => if reply.choices.len() == 0 {
            advanced(s)
        } else {
            let choice = reply.choices[0];
            let noted = ReadState { terminal: noted_terminal(s.terminal, reply), ..s };
            if choice.text.len() == 0 {
                advanced(noted)
            } else {
                ReadNext::Send(
                    noted,
                    Ok(Event::TextDelta { request_id: s.request_id, text: choice.text }),
                )
            }
        },
    }
}

/// The outcome known after an event with a choice.
pub open spec fn noted_terminal(terminal: Option<Summary>, reply: Reply) -> Option<Summary> {
    match reply.choices[0].finish_reason {
        Some(reported) => Some(
            Summary {
                finish_reason: reason_of(Some(reported)),
                usage: usage_of(reply.usage),
            },
        ),
        None => terminal,
    }
}

/// A reader after an item was offered to the consumer.
pub open spec fn after_send(s: ReadState, taken: bool) -> ReadNext {
    if taken {
        advanced(s)
    } else {
        ReadNext::End(cancelled_item(s, CancellationCause::ConsumerGone))
    }
}

/// The state a request ends in when an item ends its stream.
pub open spec fn outcome_of(item: Item) -> RequestState {
    match item {
        Ok(Event::Completed { .. }) => RequestState::Completed,
        Ok(Event::Cancelled { .. }) => RequestState::Cancelled,
        _ => RequestState::Failed,
    }
}

/// A request after a step of its reader.
pub open spec fn request_after_read(r: RequestView, next: ReadNext) -> RequestView {
    match next {
        ReadNext::End(item) => request_after(r, RequestStep::Finish(outcome_of(item))),
        _ => r,
    }
}

/// Drives a response body until the generation ends.
pub struct GenerationReader {
    sink: GenerationSink,
    decoder: SseDecoder,
    /// What arrived and has not been looked at, last first.
    backlog: Vec<String>,
    terminal: Option<GenerationSummary>,
}

/// What a [`GenerationReader`] wants done next.
pub enum ReadStep {
    /// Wait for a cancellation, or for more of the body within the idle budget,
    /// looking in that order, and tell [`GenerationReader::waited`].
    Wait(GenerationReader),
    /// Decode the payload and tell [`GenerationReader::parsed`].
    Parse(GenerationReader, String),
    /// Offer the item to the consumer and tell [`GenerationReader::delivered`].
    Send(GenerationReader, StreamItem),
    /// Release the connection and give the consumer this last item.
    End(StreamItem),
}

impl ReadStep {
    pub open spec fn view(&self) -> ReadNext {
        match self {
            ReadStep::Wait(reader) => ReadNext::Wait(reader@),
            ReadStep::Parse(reader, payload) => ReadNext::Parse(reader@, payload@),
            ReadStep::Send(reader, item) => ReadNext::Send(reader@, item_view(*item)),
            ReadStep::End(item) => ReadNext::End(item_view(*item)),
        }
    }
}

pub open spec fn summary_view(summary: Option<GenerationSummary>) -> Option<Summary> {
    match summary {
        Some(s) => Some(s@),
        None => None,
    }
}

impl View for GenerationReader {
    type V = ReadState;

    closed spec fn view(&self) -> ReadState {
        ReadState {
            request_id: self.sink@,
            sse: self.decoder@,
            pending: texts(self.backlog@).reverse(),
            terminal: summary_view(self.terminal),
        }
    }
}

/// A reader that has seen nothing.
pub open spec fn fresh_reader(request_id: RequestId) -> ReadState {
    ReadState {
        request_id,
        sse: SseState { buffer: Seq::empty(), data: Seq::empty(), has_data: false },
        pending: Seq::empty(),
        terminal: None,
    }
}

impl GenerationReader {
    pub fn new(sink: GenerationSink) -> (reader: Self)
        ensures
            reader@ == fresh_reader(sink@),
    {
        let reader = GenerationReader {
            sink,
            decoder: SseDecoder::default(),
            backlog: Vec::new(),
            terminal: None,
        };
        assert(reader@.pending =~= Seq::empty());
        reader
    }

    /// What to do once it is known what came of waiting.
    ///
    /// Silence is indistinguishable from a hang, so it becomes a cancellation with
    /// its own cause.
    pub fn waited(self, handle: &mut RequestHandle, waited: Waited) -> (step: ReadStep)
        ensures
            step@ == after_wait(self@, old(handle)@.cause, waited),
            final(handle)@ == request_after_read(
                if waited is Silent {
                    request_after(old(handle)@, RequestStep::IdleTimeout)
                } else {
                    old(handle)@
                },
                after_wait(self@, old(handle)@.cause, waited),
            ),
            waited matches Waited::Cancelled(cause) ==> step is End && item_view(step->End_0)
                == Ok::<Event, StreamFault>(
                Event::Cancelled { request_id: self@.request_id, cause },
            ),
            waited is Silent ==> step is End && item_view(step->End_0) == Ok::<Event, StreamFault>(
                Event::Cancelled {
                    request_id: self@.request_id,
                    cause: if old(handle)@.cause is Some {
                        old(handle)@.cause->0
                    } else {
                        CancellationCause::StreamIdleTimeout
                    },
                },
            ),
            waited matches Waited::Failed(reason) ==> step is End && item_view(step->End_0)
                == Err::<Event, StreamFault>(StreamFault::Transport { detail: reason@ }),
            waited is Other ==> step is Wait && step->Wait_0@ == self@,
            waited is Closed ==> step is End && match self@.terminal {
                Some(summary) => item_view(step->End_0) == Ok::<Event, StreamFault>(
                    Event::Completed { request_id: self@.request_id, summary },
                ),
                None => item_view(step->End_0) is Err && item_view(
                    step->End_0,
                )->Err_0 is UnexpectedEnd,
            },
    {
        match waited {
            Waited::Cancelled(cause) => ReadStep::End(self.sink.cancel(handle, cause)),
            Waited::Silent => {
                let cause: CancellationCause = handle.idle_timeout();
                ReadStep::End(self.sink.cancel(handle, cause))
            },
            Waited::Closed => self.ended(handle, EndOfBody::Closed),
            Waited::Failed(reason) => ReadStep::End(
                self.sink.fail(handle, GenerationStreamError::Transport { detail: reason }),
            ),
            Waited::Other => ReadStep::Wait(self),
            Waited::Data(bytes) => {
                let mut reader = self;
                match reader.decoder.push(bytes.as_slice()) {
                    Err(detail) => ReadStep::End(
                        reader.sink.fail(handle, GenerationStreamError::MalformedEvent { detail }),
                    ),
                    Ok(payloads) => {
                        reader.queue(payloads);
                        reader.advance(handle)
                    },
                }
            },
        }
    }

    /// Puts payloads behind those that wait to be looked at.
    fn queue(&mut self, payloads: Vec<String>)
        ensures
            final(self)@ == (ReadState {
                pending: old(self)@.pending + texts(payloads@),
                ..old(self)@
            }),
    {
        let mut backlog: Vec<String> = Vec::new();
        let mut left = payloads;
        while left.len() > 0
            invariant
                left@.len() <= payloads@.len(),
                left@ == payloads@.take(left@.len() as int),
                backlog@.len() == payloads@.len() - left@.len(),
                forall|i: int|
                    0 <= i < backlog@.len() ==> #[trigger] backlog@[i]
                        == payloads@[payloads@.len() - 1 - i],
            decreases left@.len(),
        {
            if let Some(payload) = left.pop() {
                backlog.push(payload);
            }
        }
        backlog.append(&mut self.backlog);
        let ghost before = texts(self.backlog@);
        self.backlog = backlog;
        proof {
            let now = texts(self.backlog@).reverse();
            assert(now =~= old(self)@.pending + texts(payloads@));
        }
    }

    /// Looks at the next payload that arrived, or asks for more.
    fn advance(self, handle: &mut RequestHandle) -> (step: ReadStep)
        ensures
            step@ == advanced(self@),
            final(handle)@ == request_after_read(old(handle)@, advanced(self@)),
    {
        let mut reader = self;
        let ghost before = reader@;
        match reader.backlog.pop() {
            None => {
                assert(before.pending.len() == 0);
                ReadStep::Wait(reader)
            },
            Some(payload) => {
                proof {
                    assert(payload@ == before.pending[0]);
                    assert(reader@.pending =~= before.pending.drop_first());
                }
                let chars = chars_of(payload.as_str());
                let marker = string_of(trim(chars.as_slice()));
                if same_text(marker.as_str(), "[DONE]") {
                    return reader.ended(handle, EndOfBody::Marked);
                }
                ReadStep::Parse(reader, payload)
            },
        }
    }

    /// Ends the stream because the body ended.
    fn ended(self, handle: &mut RequestHandle, end: EndOfBody) -> (step: ReadStep)
        ensures
            step@ == ReadNext::End(end_item(self@, end)),
            final(handle)@ == request_after_read(
                old(handle)@,
                ReadNext::End(end_item(self@, end)),
            ),
    {
        match self.terminal {
            Some(summary) => ReadStep::End(self.sink.complete(handle, summary)),
            None => {
                let detail = match end {
                    EndOfBody::Marked => {
                        "the backend ended the stream without reporting why generation stopped".to_owned()
                    },
                    EndOfBody::Closed => if self.decoder.has_partial_event() {
                        "the backend closed the connection part way through an event".to_owned()
                    } else {
                        "the backend closed the connection before completing".to_owned()
                    },
                };
                ReadStep::End(
                    self.sink.fail(handle, GenerationStreamError::UnexpectedEnd { detail }),
                )
            },
        }
    }

    /// What to do once it is known what a payload says.
    pub fn parsed(
        self,
        handle: &mut RequestHandle,
        payload: &str,
        decoded: Result<WireResponse, String>,
    ) -> (step: ReadStep)
        ensures
            step@ == after_parse(self@, payload@, reply_view(decoded)),
            final(handle)@ == request_after_read(
                old(handle)@,
                after_parse(self@, payload@, reply_view(decoded)),
            ),
            decoded matches Ok(wire) ==> (wire.choices@.len() > 0 && wire.choices@[0].text@.len()
                > 0 ==> step is Send && item_view(step->Send_1) == Ok::<Event, StreamFault>(
                Event::TextDelta { request_id: self@.request_id, text: wire.choices@[0].text@ },
            )),
            decoded matches Ok(wire) ==> (wire.choices@.len() > 0 && wire.choices@[0].text@.len()
                > 0 ==> step is Send && step->Send_1 is Ok && step->Send_1->Ok_0 is TextDelta
                && step->Send_1->Ok_0->TextDelta_text@ == wire.choices@[0].text@),
            decoded is Err ==> step is End && step->End_0 is Err,
    {
        let wire = match decoded {
            Err(reason) => {
                let detail = describe(reason.as_str(), payload);
                return ReadStep::End(
                    self.sink.fail(handle, GenerationStreamError::MalformedEvent { detail }),
                );
            },
            Ok(wire) => wire,
        };
        let mut reader = self;
        let ghost before = reader@;
        let ghost reply = wire@;
        match first_choice(wire.choices) {
            None => reader.advance(handle),
            Some(choice) => {
                assert(choice@ == reply.choices[0]);
                if choice.finish_reason.is_some() {
                    reader.terminal = Some(
                        GenerationSummary {
                            finish_reason: reported_reason(&choice),
                            usage: usage_for(wire.usage),
                        },
                    );
                }
                assert(reader@ == ReadState {
                    terminal: noted_terminal(before.terminal, reply),
                    ..before
                });
                match reader.sink.delta(choice.text) {
                    None => reader.advance(handle),
                    Some(item) => ReadStep::Send(reader, item),
                }
            },
        }
    }

    /// What to do once it is known whether the consumer took an item.
    pub fn delivered(self, handle: &mut RequestHandle, taken: bool) -> (step: ReadStep)
        ensures
            step@ == after_send(self@, taken),
            final(handle)@ == request_after_read(old(handle)@, after_send(self@, taken)),
            !taken ==> step is End && item_view(step->End_0) == Ok::<Event, StreamFault>(
                Event::Cancelled {
                    request_id: self@.request_id,
                    cause: CancellationCause::ConsumerGone,
                },
            ),
            taken && self@.pending.len() == 0 ==> step is Wait && step->Wait_0@ == self@,
    {
        if taken {
            self.advance(handle)
        } else {
            ReadStep::End(self.sink.cancel(handle, CancellationCause::ConsumerGone))
        }
    }
}

// ---------------------------------------------------------------------------
// What a whole response comes to.

/// What an engine's payloads say: how each decodes.
pub type Decoder = spec_fn(Seq<char>) -> Result<Reply, Seq<char>>;

/// A reader that works through what it has, with every item taken by the consumer:
/// the items it sends on the way, and the step it stops at, which waits or ends.
pub open spec fn worked_off(next: ReadNext, decode: Decoder) -> (Seq<Item>, ReadNext)
    decreases backlog_of(next),
{
    match next {
        ReadNext::Wait(_) => (Seq::empty(), next),
        ReadNext::End(_) => (Seq::empty(), next),
        ReadNext::Parse(s, payload) => {
            let then = after_parse(s, payload, decode(payload));
            if backlog_of(then) < backlog_of(next) {
                worked_off(then, decode)
            } else {
                (Seq::empty(), next)
            }
        },
        ReadNext::Send(s, item) => {
            let then = after_send(s, true);
            if backlog_of(then) < backlog_of(next) {
                let (items, last) = worked_off(then, decode);
                (seq![item] + items, last)
            } else {
                (Seq::empty(), next)
            }
        },
    }
}

/// How much a reader has left to do before it waits or ends.
pub open spec fn backlog_of(next: ReadNext) -> nat {
    match next {
        ReadNext::Wait(_) => 0,
        ReadNext::End(_) => 0,
        ReadNext::Send(s, _) => 3 * s.pending.len() + 1,
        ReadNext::Parse(s, _) => 3 * s.pending.len() + 2,
    }
}

/// A reader after the chunks of a body, read in turn until it ends.
pub open spec fn read_chunks(s: ReadState, chunks: Seq<Seq<u8>>, decode: Decoder) -> (
    Seq<Item>,
    ReadNext,
)
    decreases chunks.len(),
{
    if chunks.len() == 0 {
        (Seq::empty(), ReadNext::Wait(s))
    } else {
        let (before, at) = read_chunks(s, chunks.drop_last(), decode);
        match at {
            ReadNext::Wait(t) => {
                let (items, last) = worked_off(after_data(t, chunks.last()), decode);
                (before + items, last)
            },
            _ => (before, at),
        }
    }
}

/// Everything a consumer that keeps reading is given of a body that arrives as the
/// given chunks and is then closed.
pub open spec fn transcript(s: ReadState, chunks: Seq<Seq<u8>>, decode: Decoder) -> Seq<Item> {
    let (items, last) = read_chunks(s, chunks, decode);
    match last {
        ReadNext::Wait(t) => items.push(end_item(t, EndOfBody::Closed)),
        ReadNext::End(item) => items.push(item),
        _ => items,
    }
}

/// What payloads have come to: the text sent, the outcome noted, and the item that
/// ended it all, if one did.
#[verifier::ext_equal]
pub struct Progress {
    pub items: Seq<Item>,
    pub terminal: Option<Summary>,
    pub end: Option<Item>,
}

/// What one more payload does.
pub open spec fn digested(id: RequestId, p: Progress, payload: Seq<char>, decode: Decoder) -> Progress {
    let s = ReadState { terminal: p.terminal, ..fresh_reader(id) };
    if p.end is Some {
        p
    } else if is_done_marker(payload) {
        Progress { end: Some(end_item(s, EndOfBody::Marked)), ..p }
    } else {
        match decode(payload) {
            Err(reason) => Progress {
                end: Some(
                    Err(
                        StreamFault::MalformedEvent {
                            detail: reason + ", in: "@ + excerpt(payload),
                        },
                    ),
                ),
                ..p
            },
            Ok(reply) => if reply.choices.len() == 0 {
                p
            } else {
                Progress {
                    items: if reply.choices[0].text.len() == 0 {
                        p.items
                    } else {
                        p.items.push(
                            Ok(
                                Event::TextDelta {
                                    request_id: id,
                                    text: reply.choices[0].text,
                                },
                            ),
                        )
                    },
                    terminal: noted_terminal(p.terminal, reply),
                    end: None,
                }
            },
        }
    }
}

/// What payloads do, one after another.
pub open spec fn digested_all(
    id: RequestId,
    p: Progress,
    payloads: Seq<Seq<char>>,
    decode: Decoder,
) -> Progress
    decreases payloads.len(),
{
    if payloads.len() == 0 {
        p
    } else {
        digested_all(id, digested(id, p, payloads[0], decode), payloads.drop_first(), decode)
    }
}

pub open spec fn no_progress() -> Progress {
    Progress { items: Seq::empty(), terminal: None, end: None }
}

proof fn digest_stays_ended(id: RequestId, p: Progress, payloads: Seq<Seq<char>>, decode: Decoder)
    requires
        p.end is Some,
    ensures
        digested_all(id, p, payloads, decode) == p,
    decreases payloads.len(),
{
    if payloads.len() > 0 {
        digest_stays_ended(id, p, payloads.drop_first(), decode);
    }
}

proof fn digest_in_two(
    id: RequestId,
    p: Progress,
    a: Seq<Seq<char>>,
    b: Seq<Seq<char>>,
    decode: Decoder,
)
    ensures
        digested_all(id, p, a + b, decode) == digested_all(
            id,
            digested_all(id, p, a, decode),
            b,
            decode,
        ),
    decreases a.len(),
{
    if a.len() == 0 {
        assert(a + b =~= b);
    } else {
        assert((a + b).drop_first() =~= a.drop_first() + b);
        digest_in_two(id, digested(id, p, a[0], decode), a.drop_first(), b, decode);
    }
}

/// Items sent earlier stand before what follows.
proof fn digest_keeps_items(
    id: RequestId,
    p: Progress,
    payloads: Seq<Seq<char>>,
    decode: Decoder,
)
    ensures
        ({
            let bare = Progress { items: Seq::empty(), ..p };
            let whole = digested_all(id, p, payloads, decode);
            let rest = digested_all(id, bare, payloads, decode);
            whole == (Progress { items: p.items + rest.items, ..rest })
        }),
    decreases payloads.len(),
{
    let bare = Progress { items: Seq::empty(), ..p };
    if payloads.len() == 0 {
        assert(p.items + Seq::<Item>::empty() =~= p.items);
    } else {
        let tail = payloads.drop_first();
        let p1 = digested(id, p, payloads[0], decode);
        let b1 = digested(id, bare, payloads[0], decode);
        digest_keeps_items(id, p1, tail, decode);
        digest_keeps_items(id, b1, tail, decode);
        let empty1 = Progress { items: Seq::empty(), ..p1 };
        assert(empty1 == Progress { items: Seq::empty(), ..b1 });
        let rest = digested_all(id, empty1, tail, decode);
        assert(p1.items =~= p.items + b1.items);
        assert(p1.items + rest.items =~= p.items + (b1.items + rest.items));
    }
}

/// Working off a reader's events is digesting them.
proof fn working_off_digests(s: ReadState, decode: Decoder)
    ensures
        ({
            let (items, last) = worked_off(advanced(s), decode);
            let p = digested_all(
                s.request_id,
                Progress { items: Seq::empty(), terminal: s.terminal, end: None },
                s.pending,
                decode,
            );
            &&& items == p.items
            &&& match p.end {
                Some(item) => last == ReadNext::End(item),
                None => last == ReadNext::Wait(
                    ReadState { pending: Seq::empty(), terminal: p.terminal, ..s },
                ),
            }
        }),
    decreases s.pending.len(),
{
    reveal_with_fuel(worked_off, 3);
    let id = s.request_id;
    let start = Progress { items: Seq::empty(), terminal: s.terminal, end: None };
    if s.pending.len() == 0 {
        assert(s.pending =~= Seq::empty());
    } else {
        let payload = s.pending[0];
        let tail = s.pending.drop_first();
        let rest = ReadState { pending: tail, ..s };
        let first = digested(id, start, payload, decode);
        if is_done_marker(payload) {
            digest_stays_ended(id, first, tail, decode);
        } else {
            match decode(payload) {
                Err(_) => {
                    digest_stays_ended(id, first, tail, decode);
                },
                Ok(reply) => {
                    if reply.choices.len() == 0 {
                        working_off_digests(rest, decode);
                    } else {
                        let noted = ReadState {
                            terminal: noted_terminal(s.terminal, reply),
                            ..rest
                        };
                        working_off_digests(noted, decode);
                        digest_keeps_items(id, first, tail, decode);
                        if reply.choices[0].text.len() == 0 {
                            assert(first.items =~= Seq::empty());
                        } else {
                            let item = Ok::<Event, StreamFault>(
                                Event::TextDelta {
                                    request_id: id,
                                    text: reply.choices[0].text,
                                },
                            );
                            assert(first.items =~= seq![item]);
                            let (items, _) = worked_off(advanced(noted), decode);
                            assert(first.items + items =~= seq![item] + items);
                        }
                    }
                },
            }
        }
    }
}

/// What a body comes to, in terms of the bytes alone.
pub open spec fn body_progress(id: RequestId, body: Seq<u8>, decode: Decoder) -> Progress {
    digested_all(id, no_progress(), run(feed(fresh_reader(id).sse, body)).events, decode)
}

proof fn chunks_without_error(s: SseState, chunks: Seq<Seq<u8>>)
    requires
        run_chunks(s, chunks).error is None,
        chunks.len() > 0,
    ensures
        run_chunks(s, chunks.drop_last()).error is None,
{
}

/// Reading chunks in turn digests the events of the whole.
proof fn reading_digests(id: RequestId, chunks: Seq<Seq<u8>>, decode: Decoder)
    requires
        run_chunks(fresh_reader(id).sse, chunks).error is None,
    ensures
        ({
            let (items, last) = read_chunks(fresh_reader(id), chunks, decode);
            let got = run_chunks(fresh_reader(id).sse, chunks);
            let p = digested_all(id, no_progress(), got.events, decode);
            &&& items == p.items
            &&& match p.end {
                Some(item) => last == ReadNext::End(item),
                None => last == ReadNext::Wait(
                    ReadState {
                        sse: got.state,
                        terminal: p.terminal,
                        ..fresh_reader(id)
                    },
                ),
            }
        }),
    decreases chunks.len(),
{
    let sse = fresh_reader(id).sse;
    if chunks.len() > 0 {
        let front = chunks.drop_last();
        chunks_without_error(sse, chunks);
        reading_digests(id, front, decode);
        let before = run_chunks(sse, front);
        let got = run(feed(before.state, chunks.last()));
        let p = digested_all(id, no_progress(), before.events, decode);
        digest_in_two(id, no_progress(), before.events, got.events, decode);
        match p.end {
            Some(_) => {
                digest_stays_ended(id, p, got.events, decode);
            },
            None => {
                let t = ReadState { sse: before.state, terminal: p.terminal, ..fresh_reader(id) };
                let u = ReadState { sse: got.state, pending: t.pending + got.events, ..t };
                assert(t.pending + got.events =~= got.events);
                working_off_digests(u, decode);
                digest_keeps_items(id, p, got.events, decode);
            },
        }
    }
}

/// What a consumer is given of a body that is all UTF-8 is what the bytes of the body
/// come to, in whatever chunks they arrive: the text of its events, and then the item
/// that an event ended it with or, where none did, the end that a closed body has.
pub proof fn a_generation_is_what_its_bytes_come_to(id: RequestId, chunks: Seq<Seq<u8>>, decode: Decoder)
    requires
        run(feed(fresh_reader(id).sse, joined(chunks))).error is None,
    ensures
        ({
            let p = body_progress(id, joined(chunks), decode);
            let closed = ReadState {
                sse: run(feed(fresh_reader(id).sse, joined(chunks))).state,
                terminal: p.terminal,
                ..fresh_reader(id)
            };
            transcript(fresh_reader(id), chunks, decode) == p.items.push(
                match p.end {
                    Some(item) => item,
                    None => end_item(closed, EndOfBody::Closed),
                },
            )
        }),
{
    let sse = fresh_reader(id).sse;
    assert(line_extent(sse.buffer) is None);
    any_chunking_gives_the_same_events(sse, chunks);
    reading_digests(id, chunks, decode);
}

/// Reading chunks with a line that is not UTF-8, where nothing came of what stood
/// before it, gives that failure alone.
proof fn reading_breaks_off(id: RequestId, chunks: Seq<Seq<u8>>, decode: Decoder)
    requires
        run_chunks(fresh_reader(id).sse, chunks).error is Some,
        ({
            let events = run_chunks(fresh_reader(id).sse, chunks).events;
            let p = digested_all(id, no_progress(), events, decode);
            p.items.len() == 0 && p.end is None
        }),
    ensures
        ({
            let (items, last) = read_chunks(fresh_reader(id), chunks, decode);
            let detail = run_chunks(fresh_reader(id).sse, chunks).error->0;
            &&& items.len() == 0
            &&& last == ReadNext::End(Err(StreamFault::MalformedEvent { detail }))
        }),
    decreases chunks.len(),
{
    let sse = fresh_reader(id).sse;
    let front = chunks.drop_last();
    let before = run_chunks(sse, front);
    if before.error is Some {
        reading_breaks_off(id, front, decode);
    } else {
        reading_digests(id, front, decode);
        let got = run(feed(before.state, chunks.last()));
        let p = digested_all(id, no_progress(), before.events, decode);
        digest_in_two(id, no_progress(), before.events, got.events, decode);
        digest_keeps_items(id, p, got.events, decode);
        if p.end is Some {
            digest_stays_ended(id, p, got.events, decode);
        }
    }
}

/// Two ways of cutting one response into reads give a consumer the same items. The
/// one exception is a body with a line that is not UTF-8 and something to hand over
/// before it: what stood before the broken line in the same read is not sent.
pub proof fn chunking_makes_no_difference_to_a_generation(
    id: RequestId,
    a: Seq<Seq<u8>>,
    b: Seq<Seq<u8>>,
    decode: Decoder,
)
    requires
        joined(a) == joined(b),
        run(feed(fresh_reader(id).sse, joined(a))).error is Some ==> body_progress(
            id,
            joined(a),
            decode,
        ).items.len() == 0 && body_progress(id, joined(a), decode).end is None,
    ensures
        transcript(fresh_reader(id), a, decode) == transcript(fresh_reader(id), b, decode),
{
    let sse = fresh_reader(id).sse;
    if run(feed(sse, joined(a))).error is None {
        a_generation_is_what_its_bytes_come_to(id, a, decode);
        a_generation_is_what_its_bytes_come_to(id, b, decode);
    } else {
        assert(line_extent(sse.buffer) is None);
        any_chunking_gives_the_same_events(sse, a);
        any_chunking_gives_the_same_events(sse, b);
        reading_breaks_off(id, a, decode);
        reading_breaks_off(id, b, decode);
    }
}

/// Whether a payload reported why generation stopped.
pub open spec fn reports_finish(payload: Seq<char>, decode: Decoder) -> bool {
    &&& decode(payload) is Ok
    &&& decode(payload)->Ok_0.choices.len() > 0
    &&& decode(payload)->Ok_0.choices[0].finish_reason is Some
}

/// Whether some event said why generation stopped.
pub open spec fn told_why(events: Seq<Seq<char>>, decode: Decoder) -> bool {
    exists|i: int| 0 <= i < events.len() && reports_finish(#[trigger] events[i], decode)
}

/// Whether an item is a completion.
pub open spec fn is_completion(item: Item) -> bool {
    item is Ok && item->Ok_0 is Completed
}

/// Whether items are pieces of text that are not empty, for the request.
pub open spec fn only_text(id: RequestId, items: Seq<Item>) -> bool {
    forall|i: int|
        0 <= i < items.len() ==> (#[trigger] items[i]) is Ok && items[i]->Ok_0 is TextDelta
            && items[i]->Ok_0->TextDelta_request_id == id && items[i]->Ok_0->TextDelta_text.len()
            > 0
}

proof fn digest_shape(id: RequestId, p: Progress, payloads: Seq<Seq<char>>, decode: Decoder)
    requires
        only_text(id, p.items),
        p.end matches Some(item) ==> is_last(item),
        p.end matches Some(item) ==> is_completion(item) ==> p.terminal is Some,
    ensures
        ({
            let after = digested_all(id, p, payloads, decode);
            &&& only_text(id, after.items)
            &&& after.end matches Some(item) ==> is_last(item)
            &&& after.end matches Some(item) ==> is_completion(item) ==> after.terminal is Some
            &&& after.terminal is Some && p.terminal is None ==> told_why(payloads, decode)
        }),
    decreases payloads.len(),
{
    if payloads.len() > 0 {
        let tail = payloads.drop_first();
        let first = digested(id, p, payloads[0], decode);
        digest_shape(id, first, tail, decode);
        let after = digested_all(id, first, tail, decode);
        if after.terminal is Some && p.terminal is None {
            if first.terminal is Some {
                assert(reports_finish(payloads[0], decode));
            } else {
                let w = choose|i: int|
                    0 <= i < tail.len() && reports_finish(#[trigger] tail[i], decode);
                assert(payloads[w + 1] == tail[w]);
                assert(reports_finish(payloads[w + 1], decode));
            }
        }
    }
}

proof fn told_why_stays(a: Seq<Seq<char>>, b: Seq<Seq<char>>, decode: Decoder)
    ensures
        told_why(a, decode) || told_why(b, decode) ==> told_why(a + b, decode),
{
    if told_why(a, decode) {
        let w = choose|i: int| 0 <= i < a.len() && reports_finish(#[trigger] a[i], decode);
        assert(reports_finish((a + b)[w], decode));
    } else if told_why(b, decode) {
        let w = choose|i: int| 0 <= i < b.len() && reports_finish(#[trigger] b[i], decode);
        assert(reports_finish((a + b)[a.len() + w], decode));
    }
}

/// What reading chunks gives, wherever a reader stops.
proof fn reading_shape(id: RequestId, chunks: Seq<Seq<u8>>, decode: Decoder)
    ensures
        ({
            let (items, last) = read_chunks(fresh_reader(id), chunks, decode);
            let got = run_chunks(fresh_reader(id).sse, chunks);
            &&& only_text(id, items)
            &&& match last {
                ReadNext::Wait(t) => {
                    &&& got.error is None
                    &&& t.request_id == id
                    &&& t.sse == got.state
                    &&& t.pending.len() == 0
                    &&& t.terminal is Some ==> told_why(got.events, decode)
                },
                ReadNext::End(item) => is_last(item) && (is_completion(item) ==> told_why(
                    got.events,
                    decode,
                )),
                _ => false,
            }
        }),
    decreases chunks.len(),
{
    let sse = fresh_reader(id).sse;
    if chunks.len() > 0 {
        let front = chunks.drop_last();
        reading_shape(id, front, decode);
        let (items, at) = read_chunks(fresh_reader(id), front, decode);
        let before = run_chunks(sse, front);
        let got = run(feed(before.state, chunks.last()));
        told_why_stays(before.events, got.events, decode);
        if let ReadNext::Wait(t) = at {
            if got.error is None {
                let u = ReadState { sse: got.state, pending: t.pending + got.events, ..t };
                assert(u.pending =~= got.events);
                working_off_digests(u, decode);
                let p = Progress { items: Seq::empty(), terminal: t.terminal, end: None };
                digest_shape(id, p, got.events, decode);
                let after = digested_all(id, p, got.events, decode);
                assert(only_text(id, items + after.items));
            } else {
                assert(items + Seq::<Item>::empty() =~= items);
            }
        }
    }
}

/// Whatever a backend sends, its consumer is given text that is not empty and then
/// one end; and that end is a completion only if some event said why generation
/// stopped, so a truncated answer is never reported as a finished one.
pub proof fn a_generation_ends_once_and_completes_only_when_told_why(
    id: RequestId,
    chunks: Seq<Seq<u8>>,
    decode: Decoder,
)
    ensures
        ({
            let items = transcript(fresh_reader(id), chunks, decode);
            let events = run(feed(fresh_reader(id).sse, joined(chunks))).events;
            &&& items.len() > 0
            &&& only_text(id, items.drop_last())
            &&& is_last(items.last())
            &&& is_completion(items.last()) ==> told_why(events, decode)
        }),
{
    let sse = fresh_reader(id).sse;
    assert(line_extent(sse.buffer) is None);
    any_chunking_gives_the_same_events(sse, chunks);
    reading_shape(id, chunks, decode);
    let (items, _) = read_chunks(fresh_reader(id), chunks, decode);
    assert(transcript(fresh_reader(id), chunks, decode).drop_last() =~= items);
}

// ---------------------------------------------------------------------------
// What a consumer is given of what a backend said.

/// The text of an item, which is none unless it is text.
pub open spec fn delta_text(item: Item) -> Seq<char> {
    match item {
        Ok(Event::TextDelta { text, .. }) => text,
        _ => Seq::empty(),
    }
}

/// All the text of items, one after another.
pub open spec fn all_text(items: Seq<Item>) -> Seq<char> {
    items.map_values(|item: Item| delta_text(item)).flatten()
}

/// The text of the first choice of what a payload says, if it has one.
pub open spec fn first_text(reply: Result<Reply, Seq<char>>) -> Seq<char> {
    match reply {
        Ok(reply) => if reply.choices.len() > 0 {
            reply.choices[0].text
        } else {
            Seq::empty()
        },
        Err(_) => Seq::empty(),
    }
}

/// The text of the first choices of payloads, one after another.
pub open spec fn said(payloads: Seq<Seq<char>>, decode: Decoder) -> Seq<char> {
    payloads.map_values(|payload: Seq<char>| first_text(decode(payload))).flatten()
}

/// A payload is the marker of the end exactly when it is `[DONE]` with nothing but white
/// space around it.
pub proof fn the_marker_stands_alone(payload: Seq<char>)
    ensures
        is_done_marker(payload) <==> exists|a: Seq<char>, b: Seq<char>|
            all_space(a) && all_space(b) && payload == #[trigger] (a + "[DONE]"@ + b),
{
    reveal_strlit("[DONE]");
    white_space_does_not_print('[');
    white_space_does_not_print(']');
    if is_done_marker(payload) {
        trimming_takes_white_space_alone(payload);
        let (from, to) = choose|from: int, to: int|
            #![trigger payload.subrange(from, to)]
            {
                &&& 0 <= from <= to <= payload.len()
                &&& trimmed(payload) == payload.subrange(from, to)
                &&& all_space(payload.take(from))
                &&& all_space(payload.skip(to))
            };
        let a = payload.take(from);
        let b = payload.skip(to);
        assert(payload =~= a + "[DONE]"@ + b);
    }
    if exists|a: Seq<char>, b: Seq<char>|
        all_space(a) && all_space(b) && payload == #[trigger] (a + "[DONE]"@ + b) {
        let (a, b) = choose|a: Seq<char>, b: Seq<char>|
            all_space(a) && all_space(b) && payload == #[trigger] (a + "[DONE]"@ + b);
        trimming_undoes_padding(a, "[DONE]"@, b);
    }
}

proof fn text_of_one_more(items: Seq<Item>, item: Item)
    ensures
        all_text(items.push(item)) == all_text(items) + delta_text(item),
{
    let f = |item: Item| delta_text(item);
    assert(items.push(item).map_values(f) =~= items.map_values(f).push(delta_text(item)));
    broadcast use Seq::lemma_flatten_push;

}

/// Payloads that say something add their text and note the last reason they give.
proof fn digest_gathers(id: RequestId, p: Progress, payloads: Seq<Seq<char>>, decode: Decoder)
    requires
        p.end is None,
        forall|i: int|
            0 <= i < payloads.len() ==> decode(#[trigger] payloads[i]) is Ok && !is_done_marker(
                payloads[i],
            ),
    ensures
        ({
            let after = digested_all(id, p, payloads, decode);
            &&& after.end is None
            &&& all_text(after.items) == all_text(p.items) + said(payloads, decode)
            &&& (forall|i: int|
                0 <= i < payloads.len() ==> !reports_finish(#[trigger] payloads[i], decode))
                ==> after.terminal == p.terminal
            &&& forall|i: int| #[trigger]
                is_last_report(payloads, decode, i) ==> after.terminal == Some(
                    reported_summary(payloads[i], decode),
                )
        }),
    decreases payloads.len(),
{
    let f = |payload: Seq<char>| first_text(decode(payload));
    if payloads.len() == 0 {
        assert(payloads.map_values(f) =~= Seq::empty());
        assert(all_text(p.items) + said(payloads, decode) =~= all_text(p.items));
    } else {
        let first = payloads[0];
        let tail = payloads.drop_first();
        let q = digested(id, p, first, decode);
        assert(decode(payloads[0]) is Ok && !is_done_marker(payloads[0]));
        assert forall|i: int| 0 <= i < tail.len() implies decode(#[trigger] tail[i]) is Ok
            && !is_done_marker(tail[i]) by {
            assert(tail[i] == payloads[i + 1]);
        }
        digest_gathers(id, q, tail, decode);
        let text = first_text(decode(first));
        if text.len() > 0 {
            text_of_one_more(
                p.items,
                Ok(Event::TextDelta { request_id: id, text: decode(first)->Ok_0.choices[0].text }),
            );
        }
        assert(all_text(q.items) =~= all_text(p.items) + text);
        assert(payloads.map_values(f).drop_first() =~= tail.map_values(f));
        assert(said(payloads, decode) =~= text + said(tail, decode));
        assert(all_text(p.items) + said(payloads, decode) =~= all_text(q.items) + said(
            tail,
            decode,
        ));
        let after = digested_all(id, q, tail, decode);
        assert(!reports_finish(first, decode) ==> q.terminal == p.terminal);
        assert(reports_finish(first, decode) ==> q.terminal == Some(
            reported_summary(first, decode),
        ));
        if forall|i: int|
            0 <= i < payloads.len() ==> !reports_finish(#[trigger] payloads[i], decode) {
            assert(!reports_finish(payloads[0], decode));
            assert forall|i: int| 0 <= i < tail.len() implies !reports_finish(
                #[trigger] tail[i],
                decode,
            ) by {
                assert(!reports_finish(payloads[i + 1], decode));
            }
        }
        assert forall|i: int| #[trigger]
            is_last_report(payloads, decode, i) implies after.terminal == Some(
            reported_summary(payloads[i], decode),
        ) by {
            if i == 0 {
                assert forall|j: int| 0 <= j < tail.len() implies !reports_finish(
                    #[trigger] tail[j],
                    decode,
                ) by {
                    assert(!reports_finish(payloads[j + 1], decode));
                }
            } else {
                assert(tail[i - 1] == payloads[i]);
                assert forall|j: int| i - 1 < j < tail.len() implies !reports_finish(
                    #[trigger] tail[j],
                    decode,
                ) by {
                    assert(!reports_finish(payloads[j + 1], decode));
                }
                assert(is_last_report(tail, decode, i - 1));
            }
        }
    }
}

/// Whether a payload is the last one that says why generation stopped.
pub open spec fn is_last_report(payloads: Seq<Seq<char>>, decode: Decoder, i: int) -> bool {
    &&& 0 <= i < payloads.len()
    &&& reports_finish(payloads[i], decode)
    &&& forall|j: int|
        i < j < payloads.len() ==> !reports_finish(#[trigger] payloads[j], decode)
}

/// What a payload that says why generation stopped reports.
pub open spec fn reported_summary(payload: Seq<char>, decode: Decoder) -> Summary {
    let reply = decode(payload)->Ok_0;
    Summary {
        finish_reason: reason_of(reply.choices[0].finish_reason),
        usage: usage_of(reply.usage),
    }
}

/// No generated text is lost, added or changed, whatever characters it is of and however
/// the body is cut: the text that a consumer is given is that of the first choices of
/// the payloads, one after another, up to the marker of the end or the end of the body.
/// And the consumer is told how it ended: with what the last payload that gave a reason
/// reported, or that there was none.
pub proof fn no_generated_text_is_lost(
    id: RequestId,
    chunks: Seq<Seq<u8>>,
    decode: Decoder,
    k: int,
)
    requires
        run(feed(fresh_reader(id).sse, joined(chunks))).error is None,
        ({
            let events = run(feed(fresh_reader(id).sse, joined(chunks))).events;
            &&& 0 <= k <= events.len()
            &&& forall|i: int|
                0 <= i < k ==> decode(#[trigger] events[i]) is Ok && !is_done_marker(events[i])
            &&& k < events.len() ==> is_done_marker(events[k])
        }),
    ensures
        ({
            let payloads = run(feed(fresh_reader(id).sse, joined(chunks))).events.take(k);
            let items = transcript(fresh_reader(id), chunks, decode);
            &&& items.len() > 0
            &&& all_text(items) == said(payloads, decode)
            &&& forall|i: int| #[trigger]
                is_last_report(payloads, decode, i) ==> items.last() == Ok::<Event, StreamFault>(
                    Event::Completed {
                        request_id: id,
                        summary: reported_summary(payloads[i], decode),
                    },
                )
            &&& (forall|i: int|
                0 <= i < k ==> !reports_finish(#[trigger] payloads[i], decode)) ==> (
            items.last() matches Err(fault) && fault is UnexpectedEnd)
        }),
{
    let events = run(feed(fresh_reader(id).sse, joined(chunks))).events;
    let payloads = events.take(k);
    let rest = events.skip(k);
    let items = transcript(fresh_reader(id), chunks, decode);
    assert forall|i: int| 0 <= i < payloads.len() implies decode(#[trigger] payloads[i]) is Ok
        && !is_done_marker(payloads[i]) by {
        assert(payloads[i] == events[i]);
    }
    a_generation_is_what_its_bytes_come_to(id, chunks, decode);
    digest_gathers(id, no_progress(), payloads, decode);
    assert(payloads + rest =~= events);
    digest_in_two(id, no_progress(), payloads, rest, decode);
    let before = digested_all(id, no_progress(), payloads, decode);
    let after = body_progress(id, joined(chunks), decode);
    if k < events.len() {
        assert(rest[0] == events[k]);
        let ended = digested(id, before, rest[0], decode);
        digest_stays_ended(id, ended, rest.drop_first(), decode);
        assert(after == ended);
    } else {
        assert(rest =~= Seq::empty());
        assert(after == before);
    }
    assert(all_text(no_progress().items) =~= Seq::empty()) by {
        assert(no_progress().items.map_values(|item: Item| delta_text(item)) =~= Seq::empty());
    }
    text_of_one_more(after.items, items.last());
    assert(items =~= after.items.push(items.last()));
    assert(all_text(items) =~= said(payloads, decode));
}

/// What a backend writes as events reaches the consumer: where each payload is one line,
/// decodes and is no marker, and the marker follows, a body of them gives the consumer
/// the text they carry, in whatever pieces it arrives.
pub proof fn what_a_backend_writes_is_read(
    id: RequestId,
    lines: Seq<Seq<u8>>,
    crlf: bool,
    chunks: Seq<Seq<u8>>,
    decode: Decoder,
)
    requires
        forall|i: int|
            0 <= i < lines.len() ==> {
                &&& in_one_line(#[trigger] lines[i])
                &&& valid_utf8(lines[i])
                &&& decode(decode_utf8(lines[i])) is Ok
                &&& !is_done_marker(decode_utf8(lines[i]))
            },
        joined(chunks) == written_events(
            lines.map_values(|line: Seq<u8>| seq![line]),
            crlf,
        ) + written_event(seq![encode_utf8("[DONE]"@)], crlf),
    ensures
        ({
            let payloads = lines.map_values(|line: Seq<u8>| decode_utf8(line));
            let items = transcript(fresh_reader(id), chunks, decode);
            &&& items.len() > 0
            &&& all_text(items) == said(payloads, decode)
            &&& forall|i: int| #[trigger]
                is_last_report(payloads, decode, i) ==> items.last() == Ok::<Event, StreamFault>(
                    Event::Completed {
                        request_id: id,
                        summary: reported_summary(payloads[i], decode),
                    },
                )
        }),
{
    let payloads = lines.map_values(|line: Seq<u8>| decode_utf8(line));
    let sent = lines.map_values(|line: Seq<u8>| seq![line]);
    let marker = encode_utf8("[DONE]"@);
    let last = seq![seq![marker]];
    reveal_strlit("[DONE]");
    assert(is_ascii_chars("[DONE]"@));
    is_ascii_chars_encode_utf8("[DONE]"@);
    encode_utf8_valid_utf8("[DONE]"@);
    encode_utf8_decode_utf8("[DONE]"@);
    assert(in_one_line(marker)) by {
        assert forall|i: int| 0 <= i < marker.len() implies #[trigger] marker[i] != 10
            && marker[i] != 13 by {
            assert(marker[i] == "[DONE]"@[i] as u8);
        }
    }
    assert forall|i: int| 0 <= i < sent.len() implies is_sendable(#[trigger] sent[i]) by {
        assert(in_one_line(lines[i]));
        assert(sent[i] == seq![lines[i]]);
    }
    assert(is_sendable(last[0]));
    let end = written_event(seq![marker], crlf);
    let empty = Seq::<u8>::empty();
    assert(last.drop_first() =~= Seq::empty());
    assert(written_events(last, crlf) + empty =~= end) by {
        reveal_with_fuel(written_events, 2);
    }
    what_is_sent_arrives(last, crlf, empty);
    what_is_sent_arrives(sent, crlf, end);
    let sse = fresh_reader(id).sse;
    assert(sse =~= nothing_held());
    assert(feed(sse, empty).buffer =~= empty);
    let quiet = run(feed(sse, empty));
    assert(line_extent(feed(sse, empty).buffer) is None);
    assert(quiet.events =~= Seq::empty());
    let text = |lines: Seq<Seq<u8>>| event_text(lines);
    let got = run(feed(sse, joined(chunks)));
    assert(last.map_values(text) =~= seq!["[DONE]"@]);
    assert(sent.map_values(text) =~= payloads);
    assert(got.events =~= payloads.push("[DONE]"@));
    the_marker_stands_alone("[DONE]"@);
    let none = Seq::<char>::empty();
    assert(none + "[DONE]"@ + none =~= "[DONE]"@);
    assert(all_space(none));
    let k = lines.len() as int;
    assert(got.events.take(k) =~= payloads);
    assert forall|i: int| 0 <= i < k implies decode(#[trigger] got.events[i]) is Ok
        && !is_done_marker(got.events[i]) by {
        assert(in_one_line(lines[i]));
        assert(got.events[i] == decode_utf8(lines[i]));
    }
    no_generated_text_is_lost(id, chunks, decode, k);
}

/// The same answer gives the same result whether it was waited for or streamed: what is
/// collected of a stream of one payload that carries it, where it has text and says why
/// it ended, is what a request that was waited for comes to.
pub proof fn streaming_and_waiting_agree(
    id: RequestId,
    exchange: Exchange<WireResponse>,
    payload: Seq<char>,
    decode: Decoder,
)
    requires
        exchange is Answered,
        200 <= exchange->Answered_status < 300,
        exchange->Answered_decoded is Ok,
        exchange->Answered_decoded->Ok_0.choices@.len() > 0,
        exchange->Answered_decoded->Ok_0.choices@[0].finish_reason is Some,
        decode(payload) == Ok::<Reply, Seq<char>>(exchange->Answered_decoded->Ok_0@),
        !is_done_marker(payload),
    ensures
        generated(exchange) is Ok,
        ({
            let (text, summary) = generated(exchange)->Ok_0;
            let p = digested_all(id, no_progress(), seq![payload, "[DONE]"@], decode);
            &&& text == exchange->Answered_decoded->Ok_0.choices@[0].text@
            &&& p.end is Some
            &&& collected(false, p.items.push(p.end->0), Seq::empty()) == Ok::<
                Collected,
                StreamFault,
            >(Collected::Completed { text, summary })
        }),
{
    let marker = "[DONE]"@;
    the_marker_stands_alone(marker);
    let none = Seq::<char>::empty();
    assert(none + marker + none =~= marker);
    assert(all_space(none));
    let both = seq![payload, marker];
    let p1 = digested(id, no_progress(), payload, decode);
    let p2 = digested(id, p1, marker, decode);
    assert(both.drop_first() =~= seq![marker]);
    assert(seq![marker].drop_first() =~= Seq::empty());
    reveal_with_fuel(digested_all, 3);
    assert(digested_all(id, no_progress(), both, decode) == p2);
    let reply = exchange->Answered_decoded->Ok_0@;
    assert(reply.choices[0].text == exchange->Answered_decoded->Ok_0.choices@[0].text@);
    let items = p2.items.push(p2.end->0);
    reveal_with_fuel(collected, 3);
    if reply.choices[0].text.len() == 0 {
        assert(items =~= seq![p2.end->0]);
        assert(none =~= reply.choices[0].text);
    } else {
        let delta = Ok::<Event, StreamFault>(
            Event::TextDelta { request_id: id, text: reply.choices[0].text },
        );
        assert(items =~= seq![delta, p2.end->0]);
        assert(items.drop_first() =~= seq![p2.end->0]);
        assert(none + reply.choices[0].text =~= reply.choices[0].text);
    }
}

/// A request that was waited for succeeds exactly when it was answered with success and
/// at least one choice, and then gives the text of the first choice as it is.
pub proof fn the_first_choice_is_given_as_it_is(exchange: Exchange<WireResponse>)
    ensures
        generated(exchange) is Ok <==> (exchange is Answered && 200 <= exchange->Answered_status
            < 300 && exchange->Answered_decoded is Ok
            && exchange->Answered_decoded->Ok_0.choices@.len() > 0),
        generated(exchange) matches Ok((text, summary)) ==> text
            == exchange->Answered_decoded->Ok_0.choices@[0].text@ && counts_carry_over(
            exchange->Answered_decoded->Ok_0.usage,
            summary.usage,
        ) && summary.finish_reason == reason_of(
            opt_text(exchange->Answered_decoded->Ok_0.choices@[0].finish_reason),
        ),
{
}

/// What arrived is looked at in order, one payload after another, and more is waited for
/// exactly when nothing is left; a payload that is no marker is handed over to be decoded
/// as it is.
pub proof fn payloads_are_looked_at_in_order(s: ReadState)
    ensures
        s.pending.len() == 0 ==> advanced(s) == ReadNext::Wait(s),
        s.pending.len() > 0 && !is_done_marker(s.pending[0]) ==> advanced(s) == ReadNext::Parse(
            ReadState { pending: s.pending.drop_first(), ..s },
            s.pending[0],
        ),
        s.pending.len() > 0 && is_done_marker(s.pending[0]) ==> advanced(s) is End,
{
}

/// A request ends as its stream does: completed by a completion, cancelled by a
/// cancellation, and failed by a failure; and it goes on while its stream does.
pub proof fn a_request_ends_as_its_stream_does(r: RequestView, next: ReadNext)
    requires
        !(r.state is Completed) && !(r.state is Cancelled) && !(r.state is Failed),
    ensures
        ({
            let after = request_after_read(r, next);
            &&& !(next is End) ==> after == r
            &&& next matches ReadNext::End(Ok(Event::Completed { .. })) ==> after.state is Completed
            &&& next matches ReadNext::End(Ok(Event::Cancelled { .. })) ==> after.state is Cancelled
            &&& next matches ReadNext::End(Err(_)) ==> after.state is Failed
            &&& after.id == r.id && after.cause == r.cause
        }),
{
}

/// A payload that could not be understood is shown by its beginning: all of it up to 120
/// characters, and otherwise so many and a mark that there is more.
pub proof fn a_payload_is_shown_by_its_beginning(payload: Seq<char>)
    ensures
        payload.len() <= 120 ==> excerpt(payload) == payload,
        payload.len() > 120 ==> excerpt(payload) == payload.subrange(0, 120) + "..."@,
{
    if payload.len() > 120 {
        assert(payload.take(120) =~= payload.subrange(0, 120));
    }
}

/// A fault tells what it is about, whole and in words that do not depend on it.
pub proof fn a_generation_fault_tells_what_it_is_about(detail: Seq<char>, status: u16, other: u16)
    ensures
        generate_fault_text(RequestFault::NotSupported { detail }) == generate_fault_text(
            RequestFault::NotSupported { detail: Seq::empty() },
        ) + detail,
        generate_fault_text(RequestFault::MalformedResponse { detail }) == generate_fault_text(
            RequestFault::MalformedResponse { detail: Seq::empty() },
        ) + detail,
        generate_fault_text(RequestFault::Transport { detail }) == generate_fault_text(
            RequestFault::Transport { detail: Seq::empty() },
        ) + detail,
        generate_fault_text(RequestFault::Rejected { status, detail }) == generate_fault_text(
            RequestFault::Rejected { status, detail: Seq::empty() },
        ) + detail,
        same_words(
            generate_fault_text(RequestFault::Rejected { status, detail }),
            decimal(status as nat),
            generate_fault_text(RequestFault::Rejected { status: other, detail }),
            decimal(other as nat),
        ),
        same_words(
            generate_fault_text(RequestFault::Unauthorised { status }),
            decimal(status as nat),
            generate_fault_text(RequestFault::Unauthorised { status: other }),
            decimal(other as nat),
        ),
{
    let lead = "the backend rejected the request ("@;
    let behind = "): "@ + detail;
    let text = generate_fault_text(RequestFault::Rejected { status, detail });
    let second = generate_fault_text(RequestFault::Rejected { status: other, detail });
    assert(text =~= lead + decimal(status as nat) + behind);
    assert(second =~= lead + decimal(other as nat) + behind);
    words_stay(lead, decimal(status as nat), decimal(other as nat), behind, text, second);
    words_stay(
        "the backend refused the runtime's credential ("@,
        decimal(status as nat),
        decimal(other as nat),
        ")"@,
        generate_fault_text(RequestFault::Unauthorised { status }),
        generate_fault_text(RequestFault::Unauthorised { status: other }),
    );
}

/// A payload that could not be decoded ends a generation with the reason and the beginning
/// of the payload, behind all the text that came before it.
pub proof fn a_payload_that_says_nothing_fails(
    id: RequestId,
    chunks: Seq<Seq<u8>>,
    decode: Decoder,
    k: int,
    reason: Seq<char>,
)
    requires
        run(feed(fresh_reader(id).sse, joined(chunks))).error is None,
        ({
            let events = run(feed(fresh_reader(id).sse, joined(chunks))).events;
            &&& 0 <= k < events.len()
            &&& forall|i: int|
                0 <= i < k ==> decode(#[trigger] events[i]) is Ok && !is_done_marker(events[i])
            &&& !is_done_marker(events[k])
            &&& decode(events[k]) == Err::<Reply, Seq<char>>(reason)
        }),
    ensures
        ({
            let events = run(feed(fresh_reader(id).sse, joined(chunks))).events;
            let items = transcript(fresh_reader(id), chunks, decode);
            &&& items.len() > 0
            &&& all_text(items) == said(events.take(k), decode)
            &&& items.last() matches Err(fault) && fault is MalformedEvent
            &&& items.last()->Err_0->MalformedEvent_detail == reason + ", in: "@ + (
            if events[k].len() <= 120 {
                events[k]
            } else {
                events[k].subrange(0, 120) + "..."@
            })
        }),
{
    let events = run(feed(fresh_reader(id).sse, joined(chunks))).events;
    let payloads = events.take(k);
    let rest = events.skip(k);
    let items = transcript(fresh_reader(id), chunks, decode);
    assert forall|i: int| 0 <= i < payloads.len() implies decode(#[trigger] payloads[i]) is Ok
        && !is_done_marker(payloads[i]) by {
        assert(payloads[i] == events[i]);
    }
    a_generation_is_what_its_bytes_come_to(id, chunks, decode);
    digest_gathers(id, no_progress(), payloads, decode);
    assert(payloads + rest =~= events);
    digest_in_two(id, no_progress(), payloads, rest, decode);
    let before = digested_all(id, no_progress(), payloads, decode);
    let after = body_progress(id, joined(chunks), decode);
    assert(rest[0] == events[k]);
    let ended = digested(id, before, rest[0], decode);
    digest_stays_ended(id, ended, rest.drop_first(), decode);
    assert(after == ended);
    a_payload_is_shown_by_its_beginning(events[k]);
    assert(all_text(no_progress().items) =~= Seq::empty()) by {
        assert(no_progress().items.map_values(|item: Item| delta_text(item)) =~= Seq::empty());
    }
    text_of_one_more(after.items, items.last());
    assert(items =~= after.items.push(items.last()));
    assert(all_text(items) =~= said(payloads, decode));
}

/// A body that ends before anything said why generation stopped is told by how it ended:
/// by the marker, in the middle of an event, or between events.
pub proof fn a_cut_body_is_told_by_where_it_was_cut(s: ReadState)
    requires
        s.terminal is None,
    ensures
        end_item(s, EndOfBody::Marked) == Err::<Event, StreamFault>(
            StreamFault::UnexpectedEnd {
                detail:
                    "the backend ended the stream without reporting why generation stopped"@,
            },
        ),
        s.sse.buffer.len() == 0 && !s.sse.has_data ==> end_item(s, EndOfBody::Closed) == Err::<
            Event,
            StreamFault,
        >(
            StreamFault::UnexpectedEnd {
                detail: "the backend closed the connection before completing"@,
            },
        ),
        s.sse.buffer.len() > 0 || s.sse.has_data ==> end_item(s, EndOfBody::Closed) == Err::<
            Event,
            StreamFault,
        >(
            StreamFault::UnexpectedEnd {
                detail: "the backend closed the connection part way through an event"@,
            },
        ),
{
}

/// A request that was not answered with text fails with what happened: the reason that
/// the exchange or the decoding failed for, that nothing came in time, that the answer
/// held nothing, or what the backend refused it for.
pub proof fn a_failed_generation_is_told(exchange: Exchange<WireResponse>)
    ensures
        match exchange {
            Exchange::Failed(reason) => generated(exchange) == Err::<
                (Seq<char>, Summary),
                RequestFault,
            >(RequestFault::Transport { detail: reason@ }),
            Exchange::TimedOut => generated(exchange) matches Err(fault) && fault is Transport,
            Exchange::Unencodable(reason) => generated(exchange) matches Err(
                RequestFault::MalformedResponse { detail },
            ) && exists|before: Seq<char>| detail == #[trigger] (before + reason@),
            Exchange::Answered { status, body, error, decoded } => {
                &&& !(200 <= status < 300) ==> generated(exchange) is Err && is_classified(
                    generated(exchange)->Err_0,
                    status,
                    error,
                    body@,
                )
                &&& 200 <= status < 300 && decoded is Err ==> generated(exchange) == Err::<
                    (Seq<char>, Summary),
                    RequestFault,
                >(RequestFault::MalformedResponse { detail: decoded->Err_0@ })
                &&& 200 <= status < 300 && decoded is Ok && decoded->Ok_0.choices@.len() == 0 ==> (
                generated(exchange) matches Err(fault) && fault is MalformedResponse)
            },
        },
{
    if let Exchange::Answered { status, body, error, decoded } = exchange {
        a_refusal_is_told_apart(status, error, body@);
    }
    if let Exchange::Unencodable(reason) = exchange {
        assert(generated(exchange)->Err_0->MalformedResponse_detail
            == "cannot encode the request: "@ + reason@);
    }
}

} // verus!
