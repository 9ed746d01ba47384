//! The worker state machine.
//!
//! ```text
//!   Absent
//!     |
//!     v
//!   Starting ----- startup failure -----> Failed
//!     |
//!     v
//!   Ready
//!     |\
//!     | \--- unexpected exit ------------> Failed
//!     |
//!     v
//!   Draining
//!     |
//!     v
//!   Stopping
//!     |
//!     v
//!   Absent
//! ```
//!
//! `Failed` has no edge back to `Starting`: an unexpected exit is reported and
//! recovered from explicitly ([`failure_is_final`]).

use vstd::prelude::*;
use vstd::string::*;

use crate::text::{same_words, words_stay};

verus! {

/// Where a supervised worker is in its life.
#[derive(Debug, Clone, Copy, PartialEq, Eq, Hash, Structural)]
pub enum WorkerState {
    /// No process exists.
    Absent,
    /// A process exists but has not reported readiness.
    Starting,
    /// The process reported readiness and may be used.
    Ready,
    /// The process was asked to stop and is finishing outstanding work.
    Draining,
    /// The process is being stopped.
    Stopping,
    /// The process ended in a way that requires explicit recovery.
    Failed,
}

/// The edges of the machine.
pub open spec fn permitted(from: WorkerState, to: WorkerState) -> bool {
    match from {
        WorkerState::Absent => to == WorkerState::Starting,
        WorkerState::Starting => to == WorkerState::Ready || to == WorkerState::Failed,
        WorkerState::Ready => to == WorkerState::Draining || to == WorkerState::Failed,
        WorkerState::Draining => to == WorkerState::Stopping || to == WorkerState::Failed,
        WorkerState::Stopping => to == WorkerState::Absent || to == WorkerState::Failed,
        WorkerState::Failed => false,
    }
}

/// A state in words.
pub open spec fn worker_state_text(state: WorkerState) -> Seq<char> {
    match state {
        WorkerState::Absent => "absent"@,
        WorkerState::Starting => "starting"@,
        WorkerState::Ready => "ready"@,
        WorkerState::Draining => "draining"@,
        WorkerState::Stopping => "stopping"@,
        WorkerState::Failed => "failed"@,
    }
}

impl WorkerState {
    /// Whether the worker can serve work.
    pub fn is_usable(self) -> (usable: bool)
        ensures
            usable == (self == WorkerState::Ready),
    {
        matches!(self, WorkerState::Ready)
    }

    /// Whether no further transition will happen without outside intervention.
    pub fn is_terminal(self) -> (terminal: bool)
        ensures
            terminal == (self == WorkerState::Failed),
    {
        matches!(self, WorkerState::Failed)
    }

    /// Whether moving to `next` is allowed.
    pub fn can_transition_to(self, next: Self) -> (allowed: bool)
        ensures
            allowed == permitted(self, next),
            next is Failed ==> allowed == (self is Starting || self is Ready || self is Draining
                || self is Stopping),
            next is Starting ==> allowed == (self is Absent),
            next is Ready ==> allowed == (self is Starting),
            next is Draining ==> allowed == (self is Ready),
            next is Stopping ==> allowed == (self is Draining),
            next is Absent ==> allowed == (self is Stopping),
    {
        match (self, next) {
            (WorkerState::Absent, WorkerState::Starting) => true,
            (WorkerState::Starting, WorkerState::Ready) => true,
            (WorkerState::Starting, WorkerState::Failed) => true,
            (WorkerState::Ready, WorkerState::Draining) => true,
            (WorkerState::Ready, WorkerState::Failed) => true,
            (WorkerState::Draining, WorkerState::Stopping) => true,
            (WorkerState::Draining, WorkerState::Failed) => true,
            (WorkerState::Stopping, WorkerState::Absent) => true,
            (WorkerState::Stopping, WorkerState::Failed) => true,
            _ => false,
        }
    }

    /// Moves to `next`, rejecting transitions the machine does not allow.
    pub fn transition_to(self, next: Self) -> (result: Result<Self, WorkerStateError>)
        ensures
            result == if permitted(self, next) {
                Ok::<WorkerState, WorkerStateError>(next)
            } else {
                Err(WorkerStateError { from: self, to: next })
            },
    {
        if self.can_transition_to(next) {
            Ok(next)
        } else {
            Err(WorkerStateError { from: self, to: next })
        }
    }

    fn as_str(self) -> (text: &'static str)
        ensures
            text@ == worker_state_text(self),
            self is Absent ==> text@ == "absent"@,
            self is Starting ==> text@ == "starting"@,
            self is Ready ==> text@ == "ready"@,
            self is Draining ==> text@ == "draining"@,
            self is Stopping ==> text@ == "stopping"@,
            self is Failed ==> text@ == "failed"@,
    {
        match self {
            WorkerState::Absent => "absent",
            WorkerState::Starting => "starting",
            WorkerState::Ready => "ready",
            WorkerState::Draining => "draining",
            WorkerState::Stopping => "stopping",
            WorkerState::Failed => "failed",
        }
    }

    pub fn to_string(&self) -> (text: String)
        ensures
            text@ == worker_state_text(*self),
            self is Absent ==> text@ == "absent"@,
            self is Starting ==> text@ == "starting"@,
            self is Ready ==> text@ == "ready"@,
            self is Draining ==> text@ == "draining"@,
            self is Stopping ==> text@ == "stopping"@,
            self is Failed ==> text@ == "failed"@,
    {
        self.as_str().to_owned()
    }
}

/// A transition the state machine does not permit.
#[derive(Debug, Clone, Copy, PartialEq, Eq, Structural)]
pub struct WorkerStateError {
    pub from: WorkerState,
    pub to: WorkerState,
}

/// A refused transition in words.
pub open spec fn state_error_text(error: WorkerStateError) -> Seq<char> {
    "a worker cannot go from "@ + worker_state_text(error.from) + " to "@ + worker_state_text(
        error.to,
    )
}

impl WorkerStateError {
    pub fn to_string(&self) -> (text: String)
        ensures
            text@ == state_error_text(*self),
    {
        let mut text = "a worker cannot go from ".to_owned();
        text.append(self.from.as_str());
        text.append(" to ");
        text.append(self.to.as_str());
        text
    }
}

/// The machine has these edges and no others: a worker starts out of nothing, becomes
/// ready, drains, stops and is gone, one step after another, and can fail at every step
/// while there is a process.
pub proof fn a_worker_lives_in_this_order(from: WorkerState)
    ensures
        permitted(from, WorkerState::Starting) <==> from is Absent,
        permitted(from, WorkerState::Ready) <==> from is Starting,
        permitted(from, WorkerState::Draining) <==> from is Ready,
        permitted(from, WorkerState::Stopping) <==> from is Draining,
        permitted(from, WorkerState::Absent) <==> from is Stopping,
        permitted(from, WorkerState::Failed) <==> !(from is Absent) && !(from is Failed),
{
}

/// Whether a list of states follows the edges of the machine.
pub open spec fn is_history(states: Seq<WorkerState>) -> bool {
    forall|i: int| 0 < i < states.len() ==> permitted(#[trigger] states[i - 1], states[i])
}

/// Nothing follows a failure: no state is permitted after it, so a worker never
/// restarts itself.
pub proof fn failure_is_final(states: Seq<WorkerState>, i: int)
    requires
        is_history(states),
        0 <= i < states.len(),
        states[i] == WorkerState::Failed,
    ensures
        i == states.len() - 1,
{
    if i < states.len() - 1 {
        assert(permitted(states[i + 1 - 1], states[i + 1]));
    }
}

/// A worker that is ready was starting just before, and one that is gone was
/// stopping just before, after draining: readiness is never assumed, and no
/// shutdown skips draining.
pub proof fn no_stage_is_skipped(states: Seq<WorkerState>, i: int)
    requires
        is_history(states),
        0 < i < states.len(),
    ensures
        states[i] == WorkerState::Ready ==> states[i - 1] == WorkerState::Starting,
        states[i] == WorkerState::Draining ==> states[i - 1] == WorkerState::Ready,
        states[i] == WorkerState::Stopping ==> states[i - 1] == WorkerState::Draining,
        states[i] == WorkerState::Absent ==> states[i - 1] == WorkerState::Stopping,
        states[i] == WorkerState::Starting ==> states[i - 1] == WorkerState::Absent,
{
    assert(permitted(states[i - 1], states[i]));
}

/// A refused transition is told by the state it started from and the state it was to end
/// in, in words that are the same for all.
pub proof fn a_refused_transition_names_its_states(
    error: WorkerStateError,
    from: WorkerState,
    to: WorkerState,
)
    ensures
        same_words(
            state_error_text(error),
            worker_state_text(error.from),
            state_error_text(WorkerStateError { from, ..error }),
            worker_state_text(from),
        ),
        same_words(
            state_error_text(error),
            worker_state_text(error.to),
            state_error_text(WorkerStateError { to, ..error }),
            worker_state_text(to),
        ),
        exists|a: Seq<char>, b: Seq<char>|
            state_error_text(error) == #[trigger] (a + worker_state_text(error.from) + b
                + worker_state_text(error.to)),
{
    let a = "a worker cannot go from "@;
    let x = worker_state_text(error.from);
    let b = " to "@;
    let y = worker_state_text(error.to);
    let text = state_error_text(error);
    assert(text =~= a + x + b + y);
    assert(text =~= a + x + (b + y));
    assert(text =~= (a + x + b) + y + Seq::empty());
    let other = state_error_text(WorkerStateError { from, ..error });
    assert(other =~= a + worker_state_text(from) + (b + y));
    words_stay(a, x, worker_state_text(from), b + y, text, other);
    let other = state_error_text(WorkerStateError { to, ..error });
    assert(other =~= (a + x + b) + worker_state_text(to) + Seq::empty());
    words_stay(a + x + b, y, worker_state_text(to), Seq::empty(), text, other);
}

} // verus!
