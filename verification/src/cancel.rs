//! Stopping work that is already running.
//!
//! Cancellation is addressed to a request rather than to whoever is watching it: a
//! consumer may stop reading without wanting the work stopped, and a request may
//! need stopping when nobody is watching at all. This module holds the signal, the
//! reason for it and the state of a request; how a backend stops is its own affair.
//!
//! Whoever shares a request between tasks keeps one [`RequestHandle`] behind a lock.
//! The laws of a request over its whole life are [`the_first_cause_wins`],
//! [`the_first_outcome_wins`] and [`states_only_move_forward`].

use vstd::prelude::*;
use vstd::string::*;

use crate::id::RequestId;

verus! {

/// Why a request is being stopped.
#[derive(Debug, Clone, Copy, PartialEq, Eq, Hash, Structural)]
pub enum CancellationCause {
    /// Something asked for this request to stop.
    User,
    /// The backend stopped producing output for longer than the request allowed.
    StreamIdleTimeout,
    /// Nothing is reading the output any more. Nobody asked for the request to
    /// stop; the only thing that could observe it went away.
    ConsumerGone,
    /// The instance serving the request is being unloaded.
    InstanceUnloading,
}

/// A cause in words.
pub open spec fn cause_text(cause: CancellationCause) -> Seq<char> {
    match cause {
        CancellationCause::User => "cancelled"@,
        CancellationCause::StreamIdleTimeout => "idle for longer than allowed"@,
        CancellationCause::ConsumerGone => "nothing was reading the output"@,
        CancellationCause::InstanceUnloading => "the model was being unloaded"@,
    }
}

impl CancellationCause {
    pub fn to_string(&self) -> (text: String)
        ensures
            text@ == cause_text(*self),
            self is User ==> text@ == "cancelled"@,
            self is StreamIdleTimeout ==> text@ == "idle for longer than allowed"@,
            self is ConsumerGone ==> text@ == "nothing was reading the output"@,
            self is InstanceUnloading ==> text@ == "the model was being unloaded"@,
    {
        match self {
            CancellationCause::User => "cancelled".to_owned(),
            CancellationCause::StreamIdleTimeout => "idle for longer than allowed".to_owned(),
            CancellationCause::ConsumerGone => "nothing was reading the output".to_owned(),
            CancellationCause::InstanceUnloading => "the model was being unloaded".to_owned(),
        }
    }
}

/// How long a single request may take, in nanoseconds.
#[derive(Debug, Clone, Copy, PartialEq, Eq, Structural)]
pub struct RequestBudget {
    /// How long the backend may produce nothing before the request is stopped,
    /// counted from sending the request. A backend steadily producing output is
    /// never stopped by it.
    pub stream_idle: u64,
}

impl RequestBudget {
    /// The default idle allowance. Generous, because input processing happens
    /// before any output and can take tens of seconds.
    pub const DEFAULT_STREAM_IDLE: u64 = 120_000_000_000;
}

impl Default for RequestBudget {
    fn default() -> (budget: RequestBudget)
        ensures
            budget.stream_idle == 120_000_000_000,
    {
        RequestBudget { stream_idle: Self::DEFAULT_STREAM_IDLE }
    }
}

/// How long unloading waits for work to settle, in nanoseconds.
///
/// Not the same value as a request's idle allowance: that one asks whether a single
/// request is alive, this one how long an instance being torn down lets its
/// outstanding work finish first.
#[derive(Debug, Clone, Copy, PartialEq, Eq, Structural)]
pub struct UnloadBudget {
    /// How long active requests are given to reach a terminal state.
    pub drain: u64,
}

impl UnloadBudget {
    /// The default drain allowance.
    pub const DEFAULT_DRAIN: u64 = 10_000_000_000;
}

impl Default for UnloadBudget {
    fn default() -> (budget: UnloadBudget)
        ensures
            budget.drain == 10_000_000_000,
    {
        UnloadBudget { drain: Self::DEFAULT_DRAIN }
    }
}

/// Where a request has got to.
///
/// `Cancelling` exists because cancellation is not instantaneous: a backend may keep
/// working for some time after being told to stop.
#[derive(Debug, Clone, Copy, PartialEq, Eq, Hash, Structural)]
pub enum RequestState {
    /// Accepted, not yet dispatched to a backend.
    Starting,
    /// Dispatched, and the backend has it.
    Running,
    /// Stopping was requested; the backend has not finished stopping.
    Cancelling,
    /// Ended by producing a complete result.
    Completed,
    /// Ended by being stopped.
    Cancelled,
    /// Ended by failing.
    Failed,
}

/// Whether no further transition can occur.
pub open spec fn ended(state: RequestState) -> bool {
    state == RequestState::Completed || state == RequestState::Cancelled || state
        == RequestState::Failed
}

/// A state in words.
pub open spec fn request_state_text(state: RequestState) -> Seq<char> {
    match state {
        RequestState::Starting => "starting"@,
        RequestState::Running => "running"@,
        RequestState::Cancelling => "cancelling"@,
        RequestState::Completed => "completed"@,
        RequestState::Cancelled => "cancelled"@,
        RequestState::Failed => "failed"@,
    }
}

impl RequestState {
    /// Whether no further transition can occur.
    pub fn is_terminal(self) -> (terminal: bool)
        ensures
            terminal == ended(self),
            terminal == (self is Completed || self is Cancelled || self is Failed),
    {
        matches!(self, RequestState::Completed | RequestState::Cancelled | RequestState::Failed)
    }

    pub fn to_string(&self) -> (text: String)
        ensures
            text@ == request_state_text(*self),
            self is Starting ==> text@ == "starting"@,
            self is Running ==> text@ == "running"@,
            self is Cancelling ==> text@ == "cancelling"@,
            self is Completed ==> text@ == "completed"@,
            self is Cancelled ==> text@ == "cancelled"@,
            self is Failed ==> text@ == "failed"@,
    {
        match self {
            RequestState::Starting => "starting".to_owned(),
            RequestState::Running => "running".to_owned(),
            RequestState::Cancelling => "cancelling".to_owned(),
            RequestState::Completed => "completed".to_owned(),
            RequestState::Cancelled => "cancelled".to_owned(),
            RequestState::Failed => "failed".to_owned(),
        }
    }
}

/// What a backend is able to stop.
#[derive(Debug, Clone, Copy, PartialEq, Eq, Hash, Structural)]
pub enum CancellationStrategy {
    /// Stopping a request means closing the transport carrying it, so each request
    /// owns its connection.
    ConnectionAbort,
}

impl CancellationStrategy {
    pub fn to_string(&self) -> (text: String)
        ensures
            text@ == "by closing the request's connection"@,
    {
        match self {
            CancellationStrategy::ConnectionAbort => {
                "by closing the request's connection".to_owned()
            },
        }
    }
}

/// A one-way signal that a request should stop. Once set it never clears.
///
/// There is one signal for a request and no copy of it, so that every task sees the
/// same one: those that need it share it.
#[derive(Debug, PartialEq, Eq, Structural)]
pub struct CancellationToken {
    cause: Option<CancellationCause>,
}

impl View for CancellationToken {
    type V = Option<CancellationCause>;

    closed spec fn view(&self) -> Option<CancellationCause> {
        self.cause
    }
}

/// The signal after a cause is offered to it.
pub open spec fn signalled(
    signal: Option<CancellationCause>,
    cause: CancellationCause,
) -> Option<CancellationCause> {
    match signal {
        None => Some(cause),
        Some(_) => signal,
    }
}

impl CancellationToken {
    pub fn new() -> (token: Self)
        ensures
            token@ is None,
    {
        CancellationToken { cause: None }
    }

    /// Requests that the work stop, returning whether this call was the one that did
    /// it. The first cause wins.
    pub fn cancel(&mut self, cause: CancellationCause) -> (claimed: bool)
        ensures
            claimed == (old(self)@ is None),
            final(self)@ == signalled(old(self)@, cause),
            old(self)@ is None ==> final(self)@ == Some(cause),
            old(self)@ is Some ==> final(self)@ == old(self)@,
    {
        if self.cause.is_none() {
            self.cause = Some(cause);
            true
        } else {
            false
        }
    }

    /// Why the work was stopped, if it was.
    pub fn cause(&self) -> (cause: Option<CancellationCause>)
        ensures
            cause == self@,
    {
        self.cause
    }

    pub fn is_cancelled(&self) -> (cancelled: bool)
        ensures
            cancelled == (self@ is Some),
    {
        self.cause.is_some()
    }

    /// Turns a silence that outlasted its budget into a cancellation, and says why
    /// the work stops: the silence, unless something else claimed it first.
    pub fn idle_timeout(&mut self) -> (cause: CancellationCause)
        ensures
            final(self)@ == signalled(old(self)@, CancellationCause::StreamIdleTimeout),
            final(self)@ == Some(cause),
            old(self)@ is None ==> cause == CancellationCause::StreamIdleTimeout,
            old(self)@ is Some ==> final(self)@ == old(self)@,
    {
        let _ = self.cancel(CancellationCause::StreamIdleTimeout);
        match self.cause {
            Some(cause) => cause,
            None => CancellationCause::StreamIdleTimeout,
        }
    }
}

impl Default for CancellationToken {
    fn default() -> (token: CancellationToken)
        ensures
            token@ is None,
    {
        CancellationToken::new()
    }
}

/// What is known of a request: where it has got to and why it was asked to stop.
pub struct RequestView {
    pub id: RequestId,
    pub state: RequestState,
    pub cause: Option<CancellationCause>,
}

/// One in-flight request.
///
/// It exists from the moment a request is accepted, before any backend has been
/// contacted, and outlives whoever holds the request's output. It cannot be copied:
/// whoever watches a request or stops it shares the one handle, so that no two views
/// of a request can disagree.
#[derive(Debug, PartialEq, Eq, Structural)]
pub struct RequestHandle {
    id: RequestId,
    state: RequestState,
    cancel: CancellationToken,
}

impl View for RequestHandle {
    type V = RequestView;

    closed spec fn view(&self) -> RequestView {
        RequestView { id: self.id, state: self.state, cause: self.cancel@ }
    }
}

/// What can happen to a request.
pub enum RequestStep {
    /// The backend has taken the request.
    MarkRunning,
    /// Something asks for the request to stop.
    RequestCancellation(CancellationCause),
    /// The backend was silent for longer than the request allowed.
    IdleTimeout,
    /// Execution ended.
    Finish(RequestState),
}

/// A request after a step.
pub open spec fn request_after(r: RequestView, step: RequestStep) -> RequestView {
    match step {
        RequestStep::MarkRunning => if r.state == RequestState::Starting {
            RequestView { state: RequestState::Running, ..r }
        } else {
            r
        },
        RequestStep::RequestCancellation(cause) => if ended(r.state) || r.cause is Some {
            r
        } else {
            RequestView { state: RequestState::Cancelling, cause: Some(cause), ..r }
        },
        RequestStep::IdleTimeout => RequestView {
            cause: signalled(r.cause, CancellationCause::StreamIdleTimeout),
            ..r
        },
        RequestStep::Finish(outcome) => if ended(r.state) {
            r
        } else {
            RequestView { state: outcome, ..r }
        },
    }
}

/// Whether an outcome that a step records is a terminal state.
pub open spec fn step_is_proper(step: RequestStep) -> bool {
    step matches RequestStep::Finish(outcome) ==> ended(outcome)
}

/// A request after many steps.
pub open spec fn request_after_all(r: RequestView, steps: Seq<RequestStep>) -> RequestView
    decreases steps.len(),
{
    if steps.len() == 0 {
        r
    } else {
        request_after(request_after_all(r, steps.drop_last()), steps.last())
    }
}

/// Once a request has a cause for stopping, nothing that happens later rewrites it.
pub proof fn the_first_cause_wins(r: RequestView, steps: Seq<RequestStep>)
    requires
        r.cause is Some,
    ensures
        request_after_all(r, steps).cause == r.cause,
    decreases steps.len(),
{
    if steps.len() > 0 {
        the_first_cause_wins(r, steps.drop_last());
    }
}

/// Once a request has ended, nothing that happens later changes its outcome: a
/// completion racing a cancellation is decided once.
pub proof fn the_first_outcome_wins(r: RequestView, steps: Seq<RequestStep>)
    requires
        ended(r.state),
    ensures
        request_after_all(r, steps).state == r.state,
    decreases steps.len(),
{
    if steps.len() > 0 {
        the_first_outcome_wins(r, steps.drop_last());
    }
}

/// Whatever asks first for a request that has not ended to stop is why it stops, and it
/// is stopping from then on; a request that has ended is not stopped any more.
pub proof fn a_request_that_has_not_ended_can_be_stopped(r: RequestView, cause: CancellationCause)
    ensures
        ({
            let after = request_after(r, RequestStep::RequestCancellation(cause));
            let over = r.state is Completed || r.state is Cancelled || r.state is Failed;
            &&& after.id == r.id
            &&& !over && r.cause is None ==> after.state is Cancelling && after.cause == Some(cause)
            &&& over || r.cause is Some ==> after == r
        }),
{
}

/// A request that was dispatched while nothing asked it to stop is running, and its
/// dispatch changes nothing else.
pub proof fn a_dispatched_request_runs(r: RequestView)
    ensures
        ({
            let after = request_after(r, RequestStep::MarkRunning);
            &&& r.state is Starting ==> after == (RequestView { state: RequestState::Running, ..r })
            &&& !(r.state is Starting) ==> after == r
        }),
{
}

/// The first outcome of a request is recorded as it is, whatever it is, and leaves the
/// reason for stopping alone; silence is the reason only where there was none.
pub proof fn an_outcome_is_recorded_as_it_is(r: RequestView, outcome: RequestState)
    ensures
        ({
            let after = request_after(r, RequestStep::Finish(outcome));
            let over = r.state is Completed || r.state is Cancelled || r.state is Failed;
            &&& !over ==> after == (RequestView { state: outcome, ..r })
            &&& over ==> after == r
        }),
        ({
            let after = request_after(r, RequestStep::IdleTimeout);
            &&& after.state == r.state && after.id == r.id
            &&& r.cause is None ==> after.cause == Some(CancellationCause::StreamIdleTimeout)
            &&& r.cause is Some ==> after.cause == r.cause
        }),
{
}

/// How far along a state is.
pub open spec fn progress(state: RequestState) -> int {
    match state {
        RequestState::Starting => 0,
        RequestState::Running => 1,
        RequestState::Cancelling => 2,
        RequestState::Completed => 3,
        RequestState::Cancelled => 3,
        RequestState::Failed => 3,
    }
}

/// No step moves a request backwards or changes whose it is, and a request that is
/// stopping has a reason for it.
pub proof fn states_only_move_forward(r: RequestView, steps: Seq<RequestStep>)
    requires
        forall|i: int| 0 <= i < steps.len() ==> step_is_proper(#[trigger] steps[i]),
        r.state == RequestState::Cancelling ==> r.cause is Some,
    ensures
        progress(r.state) <= progress(request_after_all(r, steps).state),
        request_after_all(r, steps).id == r.id,
        request_after_all(r, steps).state == RequestState::Cancelling ==> request_after_all(
            r,
            steps,
        ).cause is Some,
    decreases steps.len(),
{
    if steps.len() > 0 {
        let before = steps.drop_last();
        assert forall|i: int| 0 <= i < before.len() implies step_is_proper(#[trigger] before[i]) by {
            assert(before[i] == steps[i]);
        }
        assert(step_is_proper(steps[steps.len() - 1]));
        states_only_move_forward(r, before);
    }
}

impl RequestHandle {
    pub fn new(id: RequestId) -> (handle: Self)
        ensures
            handle@ == (RequestView { id, state: RequestState::Starting, cause: None }),
    {
        RequestHandle { id, state: RequestState::Starting, cancel: CancellationToken::new() }
    }

    pub fn id(&self) -> (id: RequestId)
        ensures
            id == self@.id,
    {
        self.id
    }

    /// The signal the execution watches.
    pub fn token(&self) -> (token: &CancellationToken)
        ensures
            token@ == self@.cause,
    {
        &self.cancel
    }

    pub fn state(&self) -> (state: RequestState)
        ensures
            state == self@.state,
    {
        self.state
    }

    pub fn is_terminal(&self) -> (terminal: bool)
        ensures
            terminal == ended(self@.state),
            terminal == (self@.state is Completed || self@.state is Cancelled
                || self@.state is Failed),
    {
        self.state.is_terminal()
    }

    /// Records that the backend has taken the request. Ignored once the request is
    /// stopping or has ended.
    pub fn mark_running(&mut self)
        ensures
            final(self)@ == request_after(old(self)@, RequestStep::MarkRunning),
            old(self)@.state is Starting ==> final(self)@.state is Running,
            !(old(self)@.state is Starting) ==> final(self)@ == old(self)@,
    {
        if self.state == RequestState::Starting {
            self.state = RequestState::Running;
        }
    }

    /// Asks for the request to stop, returning whether this call was the one that
    /// started it stopping. Asking is not having stopped: the terminal state is
    /// recorded when execution ends.
    pub fn request_cancellation(&mut self, cause: CancellationCause) -> (claimed: bool)
        ensures
            claimed == (!ended(old(self)@.state) && old(self)@.cause is None),
            final(self)@ == request_after(
                old(self)@,
                RequestStep::RequestCancellation(cause),
            ),
            claimed ==> final(self)@.state is Cancelling && final(self)@.cause == Some(cause),
            !claimed ==> final(self)@ == old(self)@,
    {
        if self.state.is_terminal() {
            return false;
        }
        let claimed: bool = self.cancel.cancel(cause);
        if claimed {
            self.state = RequestState::Cancelling;
        }
        claimed
    }

    /// Records the outcome. The first terminal state wins.
    pub fn finish(&mut self, outcome: RequestState) -> (recorded: bool)
        requires
            ended(outcome),
        ensures
            recorded == !ended(old(self)@.state),
            final(self)@ == request_after(old(self)@, RequestStep::Finish(outcome)),
            recorded ==> final(self)@.state == outcome && final(self)@.cause == old(self)@.cause,
            !recorded ==> final(self)@ == old(self)@,
    {
        if self.state.is_terminal() {
            return false;
        }
        self.state = outcome;
        true
    }

    /// Why the request was asked to stop, if it was.
    pub fn cancellation_cause(&self) -> (cause: Option<CancellationCause>)
        ensures
            cause == self@.cause,
    {
        self.cancel.cause()
    }

    /// Turns a silence that outlasted its budget into a cancellation of this
    /// request's signal, and says why the request stops.
    pub fn idle_timeout(&mut self) -> (cause: CancellationCause)
        ensures
            final(self)@ == request_after(old(self)@, RequestStep::IdleTimeout),
            final(self)@.cause == Some(cause),
    {
        self.cancel.idle_timeout()
    }
}

} // verus!
