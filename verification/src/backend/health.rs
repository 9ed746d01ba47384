//! Backend readiness, and what it is honestly evidence of.
//!
//! [`Readiness::BackendReady`] means the process is alive, its endpoint answers and
//! it reports a serving state. It is not evidence that generation works, which only
//! performing one can show.

use vstd::prelude::*;
use vstd::string::*;

use crate::http::{is_success, status_text, status_words, success};

use crate::text::{same_words, words_stay};

verus! {

/// The health path exposed by the backend. It ignores credentials, so it says
/// whether the backend is serving and nothing about whether the runtime can talk to
/// it.
pub const HEALTH_PATH: &'static str = "/health";

/// A path that is credential-protected.
pub const PROPS_PATH: &'static str = "/props";

/// How long a single health request may take, in nanoseconds.
pub const REQUEST_BUDGET: u64 = 5_000_000_000;

/// What has actually been established about a backend.
#[derive(Debug, Clone, Copy, PartialEq, Eq, Structural)]
pub enum Readiness {
    /// The process is alive, its endpoint answers, and it reports a serving state.
    BackendReady,
    /// A generation has actually been performed and produced output.
    InferenceVerified,
}

/// Whether the runtime's credential is actually accepted by the backend.
#[derive(Debug, Clone, Copy, PartialEq, Eq, Structural)]
pub enum CredentialState {
    /// The backend accepted the runtime's credential.
    Accepted,
    /// The backend refused it. Waiting will not help.
    Refused { status: u16 },
}

/// Where a backend is in its startup.
#[derive(Debug, Clone, Copy, PartialEq, Eq, Structural)]
pub enum StartupPhase {
    /// The process exists but nothing is listening yet.
    WaitingForEndpoint,
    /// The endpoint answers but reports that it is still coming up.
    LoadingModel,
    /// The endpoint reports a serving state.
    BackendReady,
}

pub open spec fn phase_text(phase: StartupPhase) -> Seq<char> {
    match phase {
        StartupPhase::WaitingForEndpoint => "waiting for endpoint"@,
        StartupPhase::LoadingModel => "loading model"@,
        StartupPhase::BackendReady => "backend ready"@,
    }
}

impl StartupPhase {
    pub fn to_string(&self) -> (text: String)
        ensures
            text@ == phase_text(*self),
            self is WaitingForEndpoint ==> text@ == "waiting for endpoint"@,
            self is LoadingModel ==> text@ == "loading model"@,
            self is BackendReady ==> text@ == "backend ready"@,
    {
        match self {
            StartupPhase::WaitingForEndpoint => "waiting for endpoint".to_owned(),
            StartupPhase::LoadingModel => "loading model".to_owned(),
            StartupPhase::BackendReady => "backend ready".to_owned(),
        }
    }
}

/// Why a health check could not be interpreted.
#[derive(Debug, Clone, PartialEq, Eq)]
pub enum HealthError {
    /// The backend answered with a status that means it will not become ready.
    Rejected { status: u16 },
    /// The request could not be completed.
    Transport(String),
}

/// What a [`HealthError`] says.
pub enum HealthFault {
    Rejected { status: u16 },
    Transport(Seq<char>),
}

/// A fault in words.
pub open spec fn health_fault_text(fault: HealthFault) -> Seq<char> {
    match fault {
        HealthFault::Rejected { status } => "backend health returned "@ + status_text(status)
            + ", which is terminal"@,
        HealthFault::Transport(detail) => "backend health request failed: "@ + detail,
    }
}

impl HealthError {
    pub open spec fn view(&self) -> HealthFault {
        match self {
            HealthError::Rejected { status } => HealthFault::Rejected { status: *status },
            HealthError::Transport(detail) => HealthFault::Transport(detail@),
        }
    }

    pub fn to_string(&self) -> (text: String)
        ensures
            text@ == health_fault_text(self@),
    {
        match self {
            HealthError::Rejected { status } => {
                let mut text = "backend health returned ".to_owned();
                text.append(status_words(*status).as_str());
                text.append(", which is terminal");
                text
            },
            HealthError::Transport(detail) => {
                let mut text = "backend health request failed: ".to_owned();
                text.append(detail.as_str());
                text
            },
        }
    }
}

/// What a health status means. A refused secret will not improve by waiting, and
/// anything else that is not a serving state is worth waiting for.
pub open spec fn phase_of(status: u16) -> Result<StartupPhase, HealthFault> {
    if status == 200 {
        Ok(StartupPhase::BackendReady)
    } else if status == 401 || status == 403 {
        Err(HealthFault::Rejected { status })
    } else {
        Ok(StartupPhase::LoadingModel)
    }
}

/// A backend is serving exactly when it answers 200, will never be where it refuses the
/// credential with 401 or 403, and is waited for at any other status.
pub proof fn only_a_serving_backend_is_ready(status: u16)
    ensures
        phase_of(status) == Ok::<StartupPhase, HealthFault>(StartupPhase::BackendReady) <==> status
            == 200,
        phase_of(status) == Err::<StartupPhase, HealthFault>(HealthFault::Rejected { status })
            <==> status == 401 || status == 403,
        phase_of(status) == Ok::<StartupPhase, HealthFault>(StartupPhase::LoadingModel) <==> status
            != 200 && status != 401 && status != 403,
{
}

/// Whether an outcome says the same as its model.
pub open spec fn phase_matches(
    outcome: Result<StartupPhase, HealthError>,
    expected: Result<StartupPhase, HealthFault>,
) -> bool {
    match (outcome, expected) {
        (Ok(phase), Ok(p)) => phase == p,
        (Err(error), Err(fault)) => error@ == fault,
        _ => false,
    }
}

/// Maps a health status to a startup phase.
///
/// `503` is the documented "still loading" signal rather than a failure. An
/// unexpected status is waited out too; the startup deadline bounds it.
pub fn phase_for_status(status: u16) -> (outcome: Result<StartupPhase, HealthError>)
    ensures
        phase_matches(outcome, phase_of(status)),
        outcome == Ok::<StartupPhase, HealthError>(StartupPhase::BackendReady) <==> status == 200,
        outcome is Err <==> status == 401 || status == 403,
        outcome matches Err(error) ==> error == (HealthError::Rejected { status }),
        !(outcome == Ok::<StartupPhase, HealthError>(StartupPhase::WaitingForEndpoint)),
{
    if status == 200 {
        Ok(StartupPhase::BackendReady)
    } else if status == 401 || status == 403 {
        Err(HealthError::Rejected { status })
    } else {
        Ok(StartupPhase::LoadingModel)
    }
}

/// What came of one request for a status.
#[derive(Debug, Clone, PartialEq, Eq)]
pub enum StatusAttempt {
    /// Nothing came back within [`REQUEST_BUDGET`].
    TimedOut,
    /// The transport failed.
    Failed(String),
    /// The backend answered.
    Answered(u16),
}

/// How the backend is doing, from one request to [`HEALTH_PATH`].
///
/// A connection failure during startup only means that the listener is not up yet.
pub fn probe(attempt: StatusAttempt) -> (outcome: Result<StartupPhase, HealthError>)
    ensures
        phase_matches(
            outcome,
            match attempt {
                StatusAttempt::Answered(status) => phase_of(status),
                _ => Ok::<StartupPhase, HealthFault>(StartupPhase::WaitingForEndpoint),
            },
        ),
        outcome == Ok::<StartupPhase, HealthError>(StartupPhase::BackendReady) <==> attempt
            == StatusAttempt::Answered(200),
        outcome == Ok::<StartupPhase, HealthError>(StartupPhase::WaitingForEndpoint) <==> !(
        attempt is Answered),
        outcome is Err <==> attempt == StatusAttempt::Answered(401) || attempt
            == StatusAttempt::Answered(403),
{
    match attempt {
        StatusAttempt::Answered(status) => phase_for_status(status),
        StatusAttempt::TimedOut => Ok(StartupPhase::WaitingForEndpoint),
        StatusAttempt::Failed(_) => Ok(StartupPhase::WaitingForEndpoint),
    }
}

/// Whether the backend accepts the runtime's credential, from one request to
/// [`PROPS_PATH`].
pub fn probe_credential(attempt: StatusAttempt) -> (outcome: Result<CredentialState, HealthError>)
    ensures
        match attempt {
            StatusAttempt::Answered(status) => outcome == Ok::<CredentialState, HealthError>(
                if success(status) {
                    CredentialState::Accepted
                } else {
                    CredentialState::Refused { status }
                },
            ),
            StatusAttempt::TimedOut => outcome matches Err(error) && error@
                == HealthFault::Transport("credential check timed out"@),
            StatusAttempt::Failed(reason) => outcome matches Err(error) && error@
                == HealthFault::Transport(reason@),
        },
        outcome == Ok::<CredentialState, HealthError>(CredentialState::Accepted) <==> (
        attempt matches StatusAttempt::Answered(status) && 200 <= status < 300),
{
    match attempt {
        StatusAttempt::Answered(status) => Ok(
            if is_success(status) {
                CredentialState::Accepted
            } else {
                CredentialState::Refused { status }
            },
        ),
        StatusAttempt::TimedOut => Err(
            HealthError::Transport("credential check timed out".to_owned()),
        ),
        StatusAttempt::Failed(reason) => Err(HealthError::Transport(reason)),
    }
}

/// What a path answers without any credential, from one such request.
///
/// Establishes that a path is protected at all.
pub fn status_without_credential(attempt: StatusAttempt) -> (outcome: Result<u16, HealthError>)
    ensures
        match attempt {
            StatusAttempt::Answered(status) => outcome == Ok::<u16, HealthError>(status),
            StatusAttempt::TimedOut => outcome matches Err(error) && error@
                == HealthFault::Transport("request timed out"@),
            StatusAttempt::Failed(reason) => outcome matches Err(error) && error@
                == HealthFault::Transport(reason@),
        },
{
    match attempt {
        StatusAttempt::Answered(status) => Ok(status),
        StatusAttempt::TimedOut => Err(HealthError::Transport("request timed out".to_owned())),
        StatusAttempt::Failed(reason) => Err(HealthError::Transport(reason)),
    }
}

/// A fault tells what it is about, whole and in words that do not depend on it.
pub proof fn a_health_fault_tells_what_it_is_about(detail: Seq<char>, status: u16, other: u16)
    ensures
        health_fault_text(HealthFault::Transport(detail)) == health_fault_text(
            HealthFault::Transport(Seq::empty()),
        ) + detail,
        same_words(
            health_fault_text(HealthFault::Rejected { status }),
            status_text(status),
            health_fault_text(HealthFault::Rejected { status: other }),
            status_text(other),
        ),
{
    let none = Seq::<char>::empty();
    assert(health_fault_text(HealthFault::Transport(detail)) =~= health_fault_text(
        HealthFault::Transport(none),
    ) + detail);
    words_stay(
        "backend health returned "@,
        status_text(status),
        status_text(other),
        ", which is terminal"@,
        health_fault_text(HealthFault::Rejected { status }),
        health_fault_text(HealthFault::Rejected { status: other }),
    );
}

} // verus!
