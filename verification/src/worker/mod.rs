//! Backend worker lifecycle: owning the lifetime of another process.
//!
//! A worker is a process that starts, becomes ready, runs and stops. Nothing here
//! is about models, prompts or any particular engine.

pub mod log;
pub mod process;
pub mod state;

use vstd::prelude::*;
use vstd::string::*;

use crate::event::ExitCause;
use crate::id::WorkerId;
use crate::text::{decimal_i64, same_words, seconds_shown, seconds_text, signed_decimal, words_stay};
use crate::worker::state::{state_error_text, WorkerStateError};

verus! {

/// How a worker is asked to stop.
#[derive(Debug, Clone, Copy, PartialEq, Eq, Structural)]
pub enum StopProtocol {
    /// A line on the worker's standard input asks it to stop. One that does not stop
    /// within its deadline is killed.
    ShutdownLine,
    /// The worker implements no graceful stop, so it is terminated directly.
    Terminate,
}

/// How a worker is started.
#[derive(Debug, Clone, PartialEq, Eq)]
pub struct WorkerSpec {
    pub id: WorkerId,
    /// Program to run.
    pub program: String,
    /// Arguments passed to the program.
    pub args: Vec<String>,
    /// Deadlines governing the worker's lifetime.
    pub deadlines: Deadlines,
    /// How many lines of output to retain.
    pub capture_lines: usize,
    /// How the worker is asked to stop.
    pub stop: StopProtocol,
}

/// The three deadlines a supervised worker is held to, in nanoseconds.
///
/// Separate numbers, because legitimate durations differ by orders of magnitude
/// between phases.
#[derive(Debug, Clone, Copy, PartialEq, Eq, Structural)]
pub struct Deadlines {
    /// How long a worker may take to report readiness before it is treated as
    /// failed to start.
    pub startup: u64,
    /// How long a worker is given to stop after being asked politely.
    pub shutdown: u64,
    /// How long a readiness probe may take before it counts as unanswered.
    pub health: u64,
}

impl Default for Deadlines {
    fn default() -> (deadlines: Deadlines)
        ensures
            deadlines == (Deadlines {
                startup: 30_000_000_000,
                shutdown: 10_000_000_000,
                health: 5_000_000_000,
            }),
    {
        Deadlines { startup: 30_000_000_000, shutdown: 10_000_000_000, health: 5_000_000_000 }
    }
}

/// What a worker reported when it became ready.
#[derive(Debug, Clone, PartialEq, Eq)]
pub struct WorkerReady {
    /// The line the worker emitted to announce readiness.
    pub announcement: String,
}

/// How a worker's life ended.
#[derive(Debug, Clone, Copy, PartialEq, Eq, Structural)]
pub struct WorkerExit {
    pub cause: ExitCause,
}

/// Why a supervision operation failed. Durations are in nanoseconds.
#[derive(Debug, Clone, PartialEq, Eq)]
pub enum WorkerError {
    /// The process could not be started at all.
    Spawn { program: String, source: String },
    /// The worker did not report readiness within its startup deadline.
    StartupTimeout { waited: u64 },
    /// The worker exited before reporting readiness.
    ExitedDuringStartup { code: Option<i32> },
    /// The worker ignored a polite stop and had to be killed.
    ShutdownTimeout { waited: u64 },
    /// The operation is not valid for the worker's current state.
    InvalidState(WorkerStateError),
    /// An underlying operating system failure.
    Io(String),
}

/// What a [`WorkerError`] says.
pub enum WorkerFault {
    Spawn { program: Seq<char>, source: Seq<char> },
    StartupTimeout { waited: u64 },
    ExitedDuringStartup { code: Option<i32> },
    ShutdownTimeout { waited: u64 },
    InvalidState(WorkerStateError),
    Io(Seq<char>),
}

/// A fault in words.
pub open spec fn worker_fault_text(fault: WorkerFault) -> Seq<char> {
    match fault {
        WorkerFault::Spawn { program, source } => "cannot start worker "@ + program + ": "@
            + source,
        WorkerFault::StartupTimeout { waited } => "worker did not become ready within "@
            + seconds_shown(waited) + "s"@,
        WorkerFault::ExitedDuringStartup { code } =>
            "worker exited before becoming ready (status "@ + (match code {
            Some(code) => signed_decimal(code as int),
            None => "unknown"@,
        }) + ")"@,
        WorkerFault::ShutdownTimeout { waited } => "worker ignored shutdown for "@
            + seconds_shown(waited) + "s and was terminated"@,
        WorkerFault::InvalidState(error) => state_error_text(error),
        WorkerFault::Io(reason) => "worker supervision failure: "@ + reason,
    }
}

impl WorkerError {
    pub open spec fn view(&self) -> WorkerFault {
        match self {
            WorkerError::Spawn { program, source } => WorkerFault::Spawn {
                program: program@,
                source: source@,
            },
            WorkerError::StartupTimeout { waited } => WorkerFault::StartupTimeout {
                waited: *waited,
            },
            WorkerError::ExitedDuringStartup { code } => WorkerFault::ExitedDuringStartup {
                code: *code,
            },
            WorkerError::ShutdownTimeout { waited } => WorkerFault::ShutdownTimeout {
                waited: *waited,
            },
            WorkerError::InvalidState(error) => WorkerFault::InvalidState(*error),
            WorkerError::Io(reason) => WorkerFault::Io(reason@),
        }
    }

    pub fn to_string(&self) -> (text: String)
        ensures
            text@ == worker_fault_text(self@),
    {
        match self {
            WorkerError::Spawn { program, source } => {
                let mut text = "cannot start worker ".to_owned();
                text.append(program.as_str());
                text.append(": ");
                text.append(source.as_str());
                text
            },
            WorkerError::StartupTimeout { waited } => {
                let mut text = "worker did not become ready within ".to_owned();
                text.append(seconds_text(*waited).as_str());
                text.append("s");
                text
            },
            WorkerError::ExitedDuringStartup { code } => {
                let mut text = "worker exited before becoming ready (status ".to_owned();
                match code {
                    Some(code) => text.append(decimal_i64(*code as i64).as_str()),
                    None => text.append("unknown"),
                }
                text.append(")");
                text
            },
            WorkerError::ShutdownTimeout { waited } => {
                let mut text = "worker ignored shutdown for ".to_owned();
                text.append(seconds_text(*waited).as_str());
                text.append("s and was terminated");
                text
            },
            WorkerError::InvalidState(error) => error.to_string(),
            WorkerError::Io(reason) => {
                let mut text = "worker supervision failure: ".to_owned();
                text.append(reason.as_str());
                text
            },
        }
    }
}

/// A fault tells what it is about, whole and in words that do not depend on it.
pub proof fn a_worker_fault_tells_what_it_is_about(
    program: Seq<char>,
    other: Seq<char>,
    detail: Seq<char>,
    codes: (i32, i32),
    times: (u64, u64),
)
    ensures
        worker_fault_text(WorkerFault::Io(detail)) == worker_fault_text(
            WorkerFault::Io(Seq::empty()),
        ) + detail,
        worker_fault_text(WorkerFault::Spawn { program, source: detail }) == worker_fault_text(
            WorkerFault::Spawn { program, source: Seq::empty() },
        ) + detail,
        same_words(
            worker_fault_text(WorkerFault::Spawn { program, source: detail }),
            program,
            worker_fault_text(WorkerFault::Spawn { program: other, source: detail }),
            other,
        ),
        same_words(
            worker_fault_text(WorkerFault::ExitedDuringStartup { code: Some(codes.0) }),
            signed_decimal(codes.0 as int),
            worker_fault_text(WorkerFault::ExitedDuringStartup { code: Some(codes.1) }),
            signed_decimal(codes.1 as int),
        ),
        same_words(
            worker_fault_text(WorkerFault::StartupTimeout { waited: times.0 }),
            seconds_shown(times.0),
            worker_fault_text(WorkerFault::StartupTimeout { waited: times.1 }),
            seconds_shown(times.1),
        ),
        same_words(
            worker_fault_text(WorkerFault::ShutdownTimeout { waited: times.0 }),
            seconds_shown(times.0),
            worker_fault_text(WorkerFault::ShutdownTimeout { waited: times.1 }),
            seconds_shown(times.1),
        ),
{
    let none = Seq::<char>::empty();
    assert(worker_fault_text(WorkerFault::Io(detail)) =~= worker_fault_text(WorkerFault::Io(none))
        + detail);
    let text = worker_fault_text(WorkerFault::Spawn { program, source: detail });
    assert(text =~= worker_fault_text(WorkerFault::Spawn { program, source: none }) + detail);
    let lead = "cannot start worker "@;
    let behind = ": "@ + detail;
    let second = worker_fault_text(WorkerFault::Spawn { program: other, source: detail });
    assert(text =~= lead + program + behind);
    assert(second =~= lead + other + behind);
    words_stay(lead, program, other, behind, text, second);
    words_stay(
        "worker exited before becoming ready (status "@,
        signed_decimal(codes.0 as int),
        signed_decimal(codes.1 as int),
        ")"@,
        worker_fault_text(WorkerFault::ExitedDuringStartup { code: Some(codes.0) }),
        worker_fault_text(WorkerFault::ExitedDuringStartup { code: Some(codes.1) }),
    );
    words_stay(
        "worker did not become ready within "@,
        seconds_shown(times.0),
        seconds_shown(times.1),
        "s"@,
        worker_fault_text(WorkerFault::StartupTimeout { waited: times.0 }),
        worker_fault_text(WorkerFault::StartupTimeout { waited: times.1 }),
    );
    words_stay(
        "worker ignored shutdown for "@,
        seconds_shown(times.0),
        seconds_shown(times.1),
        "s and was terminated"@,
        worker_fault_text(WorkerFault::ShutdownTimeout { waited: times.0 }),
        worker_fault_text(WorkerFault::ShutdownTimeout { waited: times.1 }),
    );
}

} // verus!
