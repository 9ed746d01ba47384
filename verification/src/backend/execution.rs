//! Getting a streaming generation to the backend.
//!
//! An [`Execution`] connects, performs the handshake, builds the request, sends it
//! and looks at the answer, and then hands over to a
//! [`GenerationReader`](crate::backend::generate::GenerationReader). Every attempt
//! that waits can be cut short by a cancellation or by the idle budget, which covers
//! the silence before the first response header too. A connection belongs to one
//! request, because closing it is how this backend is told to stop.

use vstd::prelude::*;
use vstd::string::*;

use crate::backend::generate::{
    classify, fresh_reader, generate_fault_text, outcome_of, refused_as, silence_cause,
    GenerationReader, WireErrorBody,
};
use crate::cancel::{
    request_after, CancellationCause, RequestHandle, RequestState, RequestStep, RequestView,
};
use crate::http::{is_success, success};
use crate::id::RequestId;
use crate::stream::{
    item_view, Event, GenerationSink, GenerationStreamError, Item, StreamFault, StreamItem,
};

verus! {

/// What is being attempted.
#[derive(Debug, Clone, Copy, PartialEq, Eq, Structural)]
pub enum Stage {
    /// Opening a connection of the request's own.
    Connect,
    /// The HTTP handshake.
    Handshake,
    /// Building the request. This does not wait, so nothing cuts it short.
    Build,
    /// Sending the request and waiting for the answer's head. For a large prompt the
    /// backend reads all of it before answering.
    Send,
    /// Looking at the answer's head.
    Answer,
    /// Reading the body of an answer that is no success.
    Refusal,
}

/// What came of an attempt.
#[derive(Debug, Clone, PartialEq, Eq)]
pub enum Attempt {
    /// The request's signal was set first.
    Stopped(CancellationCause),
    /// Nothing happened within the idle budget.
    Silent,
    /// It failed.
    Failed(String),
    /// It succeeded.
    Done,
}

/// What is wanted next.
pub enum ExecutionNext {
    /// Attempt a stage of the request.
    Attempt(RequestId, Stage),
    /// Read the body of the answer.
    Read(RequestId),
    /// Release the connection and give the consumer this last item.
    End(Item),
}

/// The stage after one that succeeded.
pub open spec fn stage_after(stage: Stage) -> Stage {
    match stage {
        Stage::Connect => Stage::Handshake,
        Stage::Handshake => Stage::Build,
        Stage::Build => Stage::Send,
        Stage::Send => Stage::Answer,
        Stage::Answer => Stage::Answer,
        Stage::Refusal => Stage::Refusal,
    }
}

/// What an attempt leads to. `signal` is the request's cause for stopping, if any.
pub open spec fn after_attempt(
    id: RequestId,
    stage: Stage,
    signal: Option<CancellationCause>,
    attempt: Attempt,
) -> ExecutionNext {
    match attempt {
        Attempt::Stopped(cause) => ExecutionNext::End(
            Ok(Event::Cancelled { request_id: id, cause }),
        ),
        Attempt::Silent => ExecutionNext::End(
            Ok(Event::Cancelled { request_id: id, cause: silence_cause(signal) }),
        ),
        Attempt::Failed(reason) => ExecutionNext::End(Err(failure(stage, reason@))),
        Attempt::Done => ExecutionNext::Attempt(id, stage_after(stage)),
    }
}

/// What a failed attempt is reported as: a refusal whose body could not be read is
/// still a refusal.
pub open spec fn failure(stage: Stage, reason: Seq<char>) -> StreamFault {
    if stage == Stage::Refusal {
        StreamFault::Refused { detail: reason }
    } else {
        StreamFault::Transport { detail: reason }
    }
}

/// A request after a step of its execution.
pub open spec fn request_after_execution(r: RequestView, next: ExecutionNext) -> RequestView {
    match next {
        ExecutionNext::End(item) => request_after(r, RequestStep::Finish(outcome_of(item))),
        _ => r,
    }
}

/// One generation on its way to the backend.
pub struct Execution {
    sink: GenerationSink,
    stage: Stage,
}

impl View for Execution {
    type V = (RequestId, Stage);

    closed spec fn view(&self) -> (RequestId, Stage) {
        (self.sink@, self.stage)
    }
}

/// What an [`Execution`] wants done next.
pub enum ExecutionStep {
    /// Attempt [`Execution::stage`] and tell [`Execution::attempted`]; at
    /// [`Stage::Answer`], tell [`Execution::answered`], and at [`Stage::Refusal`],
    /// [`Execution::refused`] where there is a body.
    Attempt(Execution),
    /// Read the body of the answer.
    Read(GenerationReader),
    /// Release the connection and give the consumer this last item.
    End(StreamItem),
}

impl ExecutionStep {
    /// Whether a step is what is wanted next.
    pub open spec fn is_step(&self, next: ExecutionNext) -> bool {
        match (self, next) {
            (ExecutionStep::Attempt(execution), ExecutionNext::Attempt(id, stage)) => execution@
                == (id, stage),
            (ExecutionStep::Read(reader), ExecutionNext::Read(id)) => reader@ == fresh_reader(id),
            (ExecutionStep::End(item), ExecutionNext::End(expected)) => item_view(*item)
                == expected,
            _ => false,
        }
    }
}

impl Execution {
    /// Begins, unless the request could not be encoded.
    pub fn begin(sink: GenerationSink, handle: &mut RequestHandle, unencodable: Option<String>)
        -> (step: ExecutionStep)
        ensures
            ({
                let next = match unencodable {
                    Some(reason) => ExecutionNext::End(
                        Err(
                            StreamFault::Transport {
                                detail: "cannot encode the request: "@ + reason@,
                            },
                        ),
                    ),
                    None => ExecutionNext::Attempt(sink@, Stage::Connect),
                };
                step.is_step(next) && final(handle)@ == request_after_execution(
                    old(handle)@,
                    next,
                )
            }),
    {
        match unencodable {
            Some(reason) => {
                let mut detail = "cannot encode the request: ".to_owned();
                detail.append(reason.as_str());
                ExecutionStep::End(
                    sink.fail(handle, GenerationStreamError::Transport { detail }),
                )
            },
            None => ExecutionStep::Attempt(Execution { sink, stage: Stage::Connect }),
        }
    }

    /// What to attempt.
    pub fn stage(&self) -> (stage: Stage)
        ensures
            stage == self@.1,
    {
        self.stage
    }

    /// What to do once it is known what came of an attempt.
    pub fn attempted(self, handle: &mut RequestHandle, attempt: Attempt) -> (step: ExecutionStep)
        ensures
            step.is_step(after_attempt(self@.0, self@.1, old(handle)@.cause, attempt)),
            final(handle)@ == request_after_execution(
                if attempt is Silent {
                    request_after(old(handle)@, RequestStep::IdleTimeout)
                } else {
                    old(handle)@
                },
                after_attempt(self@.0, self@.1, old(handle)@.cause, attempt),
            ),
            attempt is Done <==> step is Attempt,
            attempt matches Attempt::Stopped(cause) ==> step is End && item_view(step->End_0)
                == Ok::<Event, StreamFault>(Event::Cancelled { request_id: self@.0, cause }),
            attempt is Silent && old(handle)@.cause is None ==> step is End && item_view(
                step->End_0,
            ) == Ok::<Event, StreamFault>(
                Event::Cancelled {
                    request_id: self@.0,
                    cause: CancellationCause::StreamIdleTimeout,
                },
            ),
            attempt is Silent && old(handle)@.cause is Some ==> step is End && item_view(
                step->End_0,
            ) == Ok::<Event, StreamFault>(
                Event::Cancelled { request_id: self@.0, cause: old(handle)@.cause->0 },
            ),
            attempt matches Attempt::Failed(reason) ==> step is End && item_view(step->End_0)
                == Err::<Event, StreamFault>(
                if self@.1 is Refusal {
                    StreamFault::Refused { detail: reason@ }
                } else {
                    StreamFault::Transport { detail: reason@ }
                },
            ),
    {
        match attempt {
            Attempt::Stopped(cause) => ExecutionStep::End(self.sink.cancel(handle, cause)),
            Attempt::Silent => {
                let cause: CancellationCause = handle.idle_timeout();
                ExecutionStep::End(self.sink.cancel(handle, cause))
            },
            Attempt::Failed(reason) => {
                let error = if self.stage == Stage::Refusal {
                    GenerationStreamError::Refused { detail: reason }
                } else {
                    GenerationStreamError::Transport { detail: reason }
                };
                ExecutionStep::End(self.sink.fail(handle, error))
            },
            Attempt::Done => {
                let stage: Stage = match self.stage {
                    Stage::Connect => Stage::Handshake,
                    Stage::Handshake => Stage::Build,
                    Stage::Build => Stage::Send,
                    Stage::Send => Stage::Answer,
                    Stage::Answer => Stage::Answer,
                    Stage::Refusal => Stage::Refusal,
                };
                ExecutionStep::Attempt(Execution { sink: self.sink, stage })
            },
        }
    }

    /// What to do once the backend answered: it has the request now, and its body is
    /// read for the generation or, where the status is no success, for the reason.
    pub fn answered(self, handle: &mut RequestHandle, status: u16) -> (step: ExecutionStep)
        ensures
            step.is_step(
                if success(status) {
                    ExecutionNext::Read(self@.0)
                } else {
                    ExecutionNext::Attempt(self@.0, Stage::Refusal)
                },
            ),
            final(handle)@ == request_after(old(handle)@, RequestStep::MarkRunning),
            step is Read <==> 200 <= status < 300,
            !(step is Read) ==> step is Attempt && step->Attempt_0@ == (self@.0, Stage::Refusal),
    {
        handle.mark_running();
        if is_success(status) {
            ExecutionStep::Read(GenerationReader::new(self.sink))
        } else {
            ExecutionStep::Attempt(Execution { sink: self.sink, stage: Stage::Refusal })
        }
    }

    /// Ends the stream with what a failure answer says. `error` is the engine's
    /// error shape, when the body had it.
    pub fn refused(
        self,
        handle: &mut RequestHandle,
        status: u16,
        error: Option<WireErrorBody>,
        body: &[u8],
    ) -> (item: StreamItem)
        ensures
            item_view(item) == Err::<Event, StreamFault>(
                StreamFault::Refused {
                    detail: generate_fault_text(refused_as(status, error, body@)),
                },
            ),
            final(handle)@ == request_after(
                old(handle)@,
                RequestStep::Finish(RequestState::Failed),
            ),
    {
        let detail = classify(status, error, body).to_string();
        self.sink.fail(handle, GenerationStreamError::Refused { detail })
    }
}

/// What is wanted after a list of attempts that starts with connecting.
pub open spec fn after_attempts(
    id: RequestId,
    signal: Option<CancellationCause>,
    attempts: Seq<Attempt>,
) -> ExecutionNext
    decreases attempts.len(),
{
    if attempts.len() == 0 {
        ExecutionNext::Attempt(id, Stage::Connect)
    } else {
        match after_attempts(id, signal, attempts.drop_last()) {
            ExecutionNext::Attempt(_, stage) => after_attempt(id, stage, signal, attempts.last()),
            ended => ended,
        }
    }
}

/// The backend's answer is looked at only after connecting, the handshake, building
/// and sending have all succeeded, in that order.
pub proof fn an_answer_follows_every_stage(
    id: RequestId,
    signal: Option<CancellationCause>,
    attempts: Seq<Attempt>,
)
    ensures
        after_attempts(id, signal, attempts) matches ExecutionNext::Attempt(owner, stage) ==> {
            &&& owner == id
            &&& forall|i: int| 0 <= i < attempts.len() ==> #[trigger] attempts[i] is Done
            &&& stage == if attempts.len() == 0 {
                Stage::Connect
            } else if attempts.len() == 1 {
                Stage::Handshake
            } else if attempts.len() == 2 {
                Stage::Build
            } else if attempts.len() == 3 {
                Stage::Send
            } else {
                Stage::Answer
            }
        },
    decreases attempts.len(),
{
    if attempts.len() > 0 {
        let before = attempts.drop_last();
        an_answer_follows_every_stage(id, signal, before);
        if after_attempts(id, signal, attempts) is Attempt {
            assert forall|i: int| 0 <= i < attempts.len() implies #[trigger] attempts[i] is Done by {
                if i < before.len() {
                    assert(before[i] is Done);
                }
            }
        }
    }
}

/// As long as every attempt succeeds the execution goes on, and the first one that does
/// not ends it.
pub proof fn attempts_that_succeed_lead_on(
    id: RequestId,
    signal: Option<CancellationCause>,
    attempts: Seq<Attempt>,
)
    ensures
        after_attempts(id, signal, attempts) is Attempt <==> forall|i: int|
            0 <= i < attempts.len() ==> #[trigger] attempts[i] is Done,
        after_attempts(id, signal, attempts) is Attempt
            || after_attempts(id, signal, attempts) is End,
    decreases attempts.len(),
{
    if attempts.len() > 0 {
        let before = attempts.drop_last();
        attempts_that_succeed_lead_on(id, signal, before);
        if after_attempts(id, signal, attempts) is Attempt {
            assert forall|i: int| 0 <= i < attempts.len() implies #[trigger] attempts[i] is Done by {
                if i < before.len() {
                    assert(before[i] is Done);
                }
            }
        }
        if forall|i: int| 0 <= i < attempts.len() ==> #[trigger] attempts[i] is Done {
            assert forall|i: int| 0 <= i < before.len() implies #[trigger] before[i] is Done by {
                assert(attempts[i] is Done);
            }
            assert(attempts[attempts.len() - 1] is Done);
        }
    }
}

/// What cut an attempt short is what the consumer is told: the cause it was stopped for,
/// the silence unless something else had stopped the request before, or the reason it
/// failed for, as a refusal where the backend was refusing.
pub proof fn the_consumer_is_told_what_cut_it_short(
    id: RequestId,
    stage: Stage,
    signal: Option<CancellationCause>,
    cause: CancellationCause,
    reason: String,
)
    ensures
        after_attempt(id, stage, signal, Attempt::Stopped(cause)) == ExecutionNext::End(
            Ok(Event::Cancelled { request_id: id, cause }),
        ),
        after_attempt(id, stage, None, Attempt::Silent) == ExecutionNext::End(
            Ok(
                Event::Cancelled {
                    request_id: id,
                    cause: CancellationCause::StreamIdleTimeout,
                },
            ),
        ),
        after_attempt(id, stage, Some(cause), Attempt::Silent) == ExecutionNext::End(
            Ok(Event::Cancelled { request_id: id, cause }),
        ),
        after_attempt(id, stage, signal, Attempt::Failed(reason)) == ExecutionNext::End(
            Err(
                if stage is Refusal {
                    StreamFault::Refused { detail: reason@ }
                } else {
                    StreamFault::Transport { detail: reason@ }
                },
            ),
        ),
{
}

/// A request ends as its execution does: cancelled by a cancellation and failed by a
/// failure, and it goes on while its execution does.
pub proof fn a_request_ends_as_its_execution_does(r: RequestView, next: ExecutionNext)
    requires
        !(r.state is Completed) && !(r.state is Cancelled) && !(r.state is Failed),
    ensures
        ({
            let after = request_after_execution(r, next);
            &&& !(next is End) ==> after == r
            &&& next matches ExecutionNext::End(Ok(Event::Cancelled { .. }))
                ==> after.state is Cancelled
            &&& next matches ExecutionNext::End(Err(_)) ==> after.state is Failed
            &&& after.id == r.id && after.cause == r.cause
        }),
{
}

} // verus!
