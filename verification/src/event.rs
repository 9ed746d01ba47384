//! Runtime events, split by delivery shape rather than by subject.
//!
//! [`InferenceEvent`] is per-request, frequent and ordered within its request.
//! [`RuntimeEvent`] is process-global and infrequent.

use vstd::prelude::*;

use crate::id::{ModelId, RequestId, WorkerId};

verus! {

/// An event belonging to exactly one inference request.
///
/// `Completed` and `Failed` are terminal: no further event for that request follows.
#[derive(Debug, Clone, PartialEq, Eq)]
pub enum InferenceEvent {
    /// The request has been admitted and generation is beginning.
    Started { request_id: RequestId },
    /// One generated token. `index` counts from zero within the request.
    Token { request_id: RequestId, index: u64, text: String },
    /// Generation finished normally.
    Completed { request_id: RequestId, token_count: u64 },
    /// Generation ended without completing.
    Failed { request_id: RequestId, cause: String },
}

impl InferenceEvent {
    /// The request this event belongs to.
    pub fn request_id(&self) -> (id: RequestId)
        ensures
            id == match self {
                InferenceEvent::Started { request_id } => *request_id,
                InferenceEvent::Token { request_id, .. } => *request_id,
                InferenceEvent::Completed { request_id, .. } => *request_id,
                InferenceEvent::Failed { request_id, .. } => *request_id,
            },
    {
        match self {
            InferenceEvent::Started { request_id } => *request_id,
            InferenceEvent::Token { request_id, .. } => *request_id,
            InferenceEvent::Completed { request_id, .. } => *request_id,
            InferenceEvent::Failed { request_id, .. } => *request_id,
        }
    }

    /// Whether no further event for this request will follow.
    pub fn is_terminal(&self) -> (terminal: bool)
        ensures
            terminal == (self is Completed || self is Failed),
    {
        matches!(self, InferenceEvent::Completed { .. } | InferenceEvent::Failed { .. })
    }
}

/// Why a supervised worker process stopped running.
#[derive(Debug, Clone, Copy, PartialEq, Eq, Structural)]
pub enum ExitCause {
    /// The worker stopped because the runtime asked it to.
    Requested,
    /// The worker exited on its own with the given status code, if one was reported.
    Unexpected { code: Option<i32> },
    /// The worker failed to become ready within its startup deadline.
    StartupTimeout,
    /// The worker was forcibly terminated after missing its shutdown deadline.
    Killed,
}

impl ExitCause {
    /// Whether this exit was the result of a deliberate runtime action.
    pub fn is_expected(&self) -> (expected: bool)
        ensures
            expected == (*self == ExitCause::Requested),
    {
        matches!(self, ExitCause::Requested)
    }
}

/// A process-global event, not tied to any single request.
#[derive(Debug, Clone, Copy, PartialEq, Eq, Structural)]
pub enum RuntimeEvent {
    /// A worker process was spawned and reached a ready state.
    WorkerStarted { worker_id: WorkerId },
    /// A worker process is no longer running.
    WorkerExited { worker_id: WorkerId, cause: ExitCause },
    /// A model became resident and is available for requests.
    ModelLoaded { model_id: ModelId, worker_id: WorkerId },
    /// A model is no longer resident.
    ModelUnloaded { model_id: ModelId },
}

} // verus!
