//! Supervising a worker that is a child process.
//!
//! A worker announces readiness by printing [`READY_MARKER`] on standard output: a
//! live process proves only that it was started. A polite stop is a
//! [`SHUTDOWN_COMMAND`] line on its standard input. A worker that ignores the
//! request past its deadline is killed, and that is reported.
//!
//! [`WorkerHandle`] holds what is known of a worker, and [`ProcessWorker`] decides.
//! The process itself belongs to whoever drives them, who performs what is asked for
//! and tells what came of it.

use vstd::prelude::*;
use vstd::string::*;

use crate::event::ExitCause;
use crate::id::WorkerId;
use crate::text::{
    a_prefix_stands_first, all_space, begins_with, chars_of, starts_with, trimmed_start,
    trimming_the_start, white_space_does_not_print,
};
use crate::worker::log::LogStream;
use crate::worker::state::{permitted, WorkerState, WorkerStateError};
use crate::worker::{
    Deadlines, StopProtocol, WorkerError, WorkerExit, WorkerFault, WorkerReady, WorkerSpec,
};

verus! {

/// The line a worker prints on standard output to announce readiness.
pub const READY_MARKER: &'static str = "MEHOY-WORKER-READY";

/// The line written to a worker's standard input to request a polite stop.
pub const SHUTDOWN_COMMAND: &'static str = "shutdown";

/// How often a readiness probe is consulted, in nanoseconds.
pub const PROBE_INTERVAL: u64 = 50_000_000;

/// How many captured lines the live feed buffers for a watching probe.
pub const LINE_FEED_CAPACITY: usize = 256;

/// How long to wait for a worker's stream readers to finish after it exits, in
/// nanoseconds.
pub const OUTPUT_FLUSH_BUDGET: u64 = 2_000_000_000;

/// What a readiness probe observed.
#[derive(Debug, Clone, PartialEq, Eq)]
pub enum ProbeOutcome {
    /// Not ready yet. Keep waiting until the startup deadline.
    NotYet,
    /// Ready, with whatever the backend reported.
    Ready(WorkerReady),
}

/// Whether a line of output announces readiness: the marker stands first on it.
pub open spec fn announces(line: Seq<char>) -> bool {
    begins_with(trimmed_start(line), READY_MARKER@)
}

/// A line announces readiness exactly when the marker stands on it with nothing but
/// white space before it, whatever follows.
pub proof fn the_marker_stands_first(line: Seq<char>)
    ensures
        announces(line) <==> exists|a: Seq<char>, b: Seq<char>|
            all_space(a) && line == #[trigger] (a + "MEHOY-WORKER-READY"@ + b),
{
    reveal_strlit("MEHOY-WORKER-READY");
    white_space_does_not_print('M');
    trimming_the_start(line);
    let n = line.len() - trimmed_start(line).len();
    a_prefix_stands_first(trimmed_start(line), "MEHOY-WORKER-READY"@);
    if announces(line) {
        let b = choose|b: Seq<char>| trimmed_start(line) == #[trigger] ("MEHOY-WORKER-READY"@ + b);
        assert(line =~= line.take(n) + line.skip(n));
        assert(line.take(n) + ("MEHOY-WORKER-READY"@ + b) =~= line.take(n)
            + "MEHOY-WORKER-READY"@ + b);
    }
    if exists|a: Seq<char>, b: Seq<char>|
        all_space(a) && line == #[trigger] (a + "MEHOY-WORKER-READY"@ + b) {
        let (a, b) = choose|a: Seq<char>, b: Seq<char>|
            all_space(a) && line == #[trigger] (a + "MEHOY-WORKER-READY"@ + b);
        assert(line[a.len() as int] == 'M');
        if n < a.len() {
            assert(line[n] == a[n]);
        }
        if n > a.len() {
            assert(line.take(n)[a.len() as int] == 'M');
        }
        assert(line.skip(n) =~= "MEHOY-WORKER-READY"@ + b);
    }
}

/// Whether a line of output announces readiness.
pub fn announces_readiness(line: &str) -> (yes: bool)
    ensures
        yes == announces(line@),
        yes <==> exists|a: Seq<char>, b: Seq<char>|
            all_space(a) && line@ == #[trigger] (a + "MEHOY-WORKER-READY"@ + b),
{
    proof {
        the_marker_stands_first(line@);
    }
    let chars = chars_of(line);
    let marker = chars_of(READY_MARKER);
    let mut i: usize = 0;
    assert(chars@.skip(0) =~= chars@);
    while i < chars.len() && crate::text::space(chars[i])
        invariant
            i <= chars@.len(),
            trimmed_start(chars@) == trimmed_start(chars@.skip(i as int)),
        ensures
            i <= chars@.len(),
            trimmed_start(chars@) == chars@.skip(i as int),
        decreases chars@.len() - i,
    {
        assert(chars@.skip(i as int).drop_first() =~= chars@.skip(i + 1));
        i = i + 1;
    }
    let rest = vstd::slice::slice_subrange(chars.as_slice(), i, chars.len());
    assert(rest@ =~= chars@.skip(i as int));
    starts_with(rest, marker.as_slice())
}

/// What a probe that watches a worker's output found in its feed.
#[derive(Debug, Clone, PartialEq, Eq)]
pub enum FeedItem {
    /// A captured line, and the stream it was printed on.
    Line { stream: LogStream, text: String },
    /// Lines were lost because the probe fell behind. The announcement may still
    /// arrive.
    Lagged,
    /// Nothing more is buffered.
    Exhausted,
}

/// What one item of a feed says of readiness; `None` is to look at the next. Only
/// standard output announces it.
pub open spec fn item_says(item: FeedItem) -> Option<ProbeOutcome> {
    match item {
        FeedItem::Line { stream, text } => if stream == LogStream::Stdout && announces(text@) {
            Some(ProbeOutcome::Ready(WorkerReady { announcement: text }))
        } else {
            None
        },
        FeedItem::Lagged => None,
        FeedItem::Exhausted => Some(ProbeOutcome::NotYet),
    }
}

/// What a feed says of readiness, looked at item by item.
pub open spec fn feed_says(items: Seq<FeedItem>) -> ProbeOutcome
    decreases items.len(),
{
    if items.len() == 0 {
        ProbeOutcome::NotYet
    } else {
        match item_says(items[0]) {
            Some(outcome) => outcome,
            None => feed_says(items.drop_first()),
        }
    }
}

/// A feed makes a worker ready only by a line of standard output that begins with the
/// marker; the same line on standard error announces nothing.
pub proof fn only_standard_output_announces_readiness(items: Seq<FeedItem>)
    ensures
        feed_says(items) matches ProbeOutcome::Ready(ready) ==> announces(ready.announcement@)
            && items.contains(
            FeedItem::Line { stream: LogStream::Stdout, text: ready.announcement },
        ),
    decreases items.len(),
{
    if items.len() > 0 && item_says(items[0]) is None {
        let rest = items.drop_first();
        only_standard_output_announces_readiness(rest);
        if let ProbeOutcome::Ready(ready) = feed_says(items) {
            let line = FeedItem::Line { stream: LogStream::Stdout, text: ready.announcement };
            let i = choose|i: int| 0 <= i < rest.len() && rest[i] == line;
            assert(items[i + 1] == line);
        }
    } else if items.len() > 0 {
        assert(items.contains(items[0]));
    }
}

/// A worker that announced its readiness on standard output is found ready, with what it
/// announced, as soon as its line is reached: where no line before it did and the feed
/// was not exhausted.
pub proof fn an_announcement_is_noticed(items: Seq<FeedItem>, i: int, text: String)
    requires
        0 <= i < items.len(),
        items[i] == (FeedItem::Line { stream: LogStream::Stdout, text }),
        exists|a: Seq<char>, b: Seq<char>|
            all_space(a) && text@ == #[trigger] (a + "MEHOY-WORKER-READY"@ + b),
        forall|j: int|
            0 <= j < i ==> !(#[trigger] items[j] is Exhausted) && (
            items[j] matches FeedItem::Line { stream, text } ==> stream is Stderr || !announces(
                text@,
            )),
    ensures
        feed_says(items) == ProbeOutcome::Ready(WorkerReady { announcement: text }),
    decreases i,
{
    the_marker_stands_first(text@);
    if i > 0 {
        assert(!(items[0] is Exhausted));
        let rest = items.drop_first();
        assert forall|j: int| 0 <= j < i - 1 implies !(#[trigger] rest[j] is Exhausted) && (
        rest[j] matches FeedItem::Line { stream, text } ==> stream is Stderr || !announces(
            text@,
        )) by {
            assert(rest[j] == items[j + 1]);
        }
        an_announcement_is_noticed(rest, i - 1, text);
    }
}

/// What the supervisor knows of a worker.
pub struct Supervised {
    pub id: WorkerId,
    pub state: WorkerState,
    /// Whether a process is held.
    pub has_process: bool,
    pub deadlines: Deadlines,
    pub stop: StopProtocol,
}

/// A running worker and what is needed to decide about it.
#[derive(Debug)]
pub struct WorkerHandle {
    id: WorkerId,
    state: WorkerState,
    has_process: bool,
    deadlines: Deadlines,
    stop: StopProtocol,
}

impl View for WorkerHandle {
    type V = Supervised;

    closed spec fn view(&self) -> Supervised {
        Supervised {
            id: self.id,
            state: self.state,
            has_process: self.has_process,
            deadlines: self.deadlines,
            stop: self.stop,
        }
    }
}

/// A worker moved to a state, or the refusal of a move the machine does not permit.
pub open spec fn moved(w: Supervised, to: WorkerState) -> Result<Supervised, WorkerFault> {
    if permitted(w.state, to) {
        Ok(Supervised { state: to, ..w })
    } else {
        Err(WorkerFault::InvalidState(WorkerStateError { from: w.state, to }))
    }
}

/// What came of starting a worker's process.
#[derive(Debug, Clone, PartialEq, Eq)]
pub enum Spawned {
    /// The process was started and is under lifetime control.
    Started,
    /// It could not be started.
    Refused(String),
    /// It could not be brought under lifetime control.
    Uncontrolled(String),
}

/// What happened while a worker was starting.
#[derive(Debug, Clone, PartialEq, Eq)]
pub enum StartupEvent {
    /// The startup deadline passed. `elapsed` is how long it took to notice.
    TimedOut { elapsed: u64 },
    /// Whether the process is alive could not be found out.
    Unobservable(String),
    /// The process exited.
    Exited { code: Option<i32> },
    /// The probe failed, which is a terminal startup failure.
    ProbeFailed(WorkerError),
    /// The process is alive and the probe answered.
    Probed(ProbeOutcome),
}

/// What to do about a worker that is starting.
#[derive(Debug, PartialEq, Eq)]
pub enum StartupStep {
    /// Wait for [`PROBE_INTERVAL`] and look again, at the process first.
    KeepWaiting,
    /// Startup is over.
    Done(Result<WorkerReady, WorkerError>),
    /// Kill the worker, whatever comes of that, and report the failure.
    Kill(WorkerError),
}

/// What a [`StartupStep`] says.
pub enum StartupNext {
    KeepWaiting,
    Ready(Seq<char>),
    Failed(WorkerFault),
    Kill(WorkerFault),
}

impl StartupStep {
    pub open spec fn view(&self) -> StartupNext {
        match self {
            StartupStep::KeepWaiting => StartupNext::KeepWaiting,
            StartupStep::Done(Ok(ready)) => StartupNext::Ready(ready.announcement@),
            StartupStep::Done(Err(error)) => StartupNext::Failed(error@),
            StartupStep::Kill(error) => StartupNext::Kill(error@),
        }
    }
}

/// The larger of two durations.
pub open spec fn longer(a: u64, b: u64) -> u64 {
    if a >= b {
        a
    } else {
        b
    }
}

/// A worker that failed to start, and what is reported of it.
pub open spec fn startup_failed(w: Supervised, fault: WorkerFault) -> (Supervised, StartupNext) {
    match moved(w, WorkerState::Failed) {
        Ok(failed) => (failed, StartupNext::Failed(fault)),
        Err(refused) => (w, StartupNext::Failed(refused)),
    }
}

/// What an event of its startup does to a worker.
pub open spec fn after_startup(w: Supervised, event: StartupEvent) -> (Supervised, StartupNext) {
    match event {
        StartupEvent::Probed(ProbeOutcome::NotYet) => (w, StartupNext::KeepWaiting),
        StartupEvent::Probed(ProbeOutcome::Ready(ready)) => match moved(w, WorkerState::Ready) {
            Ok(usable) => (usable, StartupNext::Ready(ready.announcement@)),
            Err(refused) => (w, StartupNext::Failed(refused)),
        },
        StartupEvent::ProbeFailed(error) => startup_failed(w, error@),
        StartupEvent::Unobservable(reason) => startup_failed(w, WorkerFault::Io(reason@)),
        StartupEvent::Exited { code } => startup_failed(
            w,
            WorkerFault::ExitedDuringStartup { code },
        ),
        StartupEvent::TimedOut { elapsed } => match moved(w, WorkerState::Failed) {
            Ok(failed) => (
                failed,
                StartupNext::Kill(
                    WorkerFault::StartupTimeout { waited: longer(elapsed, w.deadlines.startup) },
                ),
            ),
            Err(refused) => (w, StartupNext::Failed(refused)),
        },
    }
}

/// How a worker is to be stopped.
#[derive(Debug, Clone, Copy, PartialEq, Eq, Structural)]
pub enum ShutdownStep {
    /// Kill the worker and tell [`ProcessWorker::terminated`].
    Terminate,
    /// There is no process to stop.
    Done(WorkerExit),
    /// Write [`SHUTDOWN_COMMAND`] to the worker's input, close it, wait for the
    /// worker within the budget and tell [`ProcessWorker::stopped`].
    Ask { budget: u64 },
}

/// A worker that is told to stop: one that was serving drains and stops, and one
/// that was draining stops.
pub open spec fn stopping(w: Supervised) -> Supervised {
    if w.state == WorkerState::Ready || w.state == WorkerState::Draining {
        Supervised { state: WorkerState::Stopping, ..w }
    } else {
        w
    }
}

pub open spec fn requested() -> WorkerExit {
    WorkerExit { cause: ExitCause::Requested }
}

/// How a worker is stopped.
pub open spec fn shutdown_step(w: Supervised) -> ShutdownStep {
    if w.stop == StopProtocol::Terminate {
        ShutdownStep::Terminate
    } else if !w.has_process {
        ShutdownStep::Done(requested())
    } else {
        ShutdownStep::Ask { budget: w.deadlines.shutdown }
    }
}

/// A worker whose process is gone because it was stopped.
pub open spec fn gone(w: Supervised) -> Supervised {
    Supervised {
        has_process: false,
        state: if w.state == WorkerState::Stopping {
            WorkerState::Absent
        } else {
            w.state
        },
        ..w
    }
}

/// What came of asking a worker to stop.
#[derive(Debug, Clone, PartialEq, Eq)]
pub enum Stopped {
    /// The worker exited in time.
    Exited,
    /// Its exit could not be collected.
    Unobservable(String),
    /// It did not exit in time and was killed. `refused` is why it could not be.
    Killed { refused: Option<String> },
}

/// What is reported of a worker that was asked to stop.
pub open spec fn stop_report(w: Supervised, stopped: Stopped) -> Result<WorkerExit, WorkerFault> {
    match stopped {
        Stopped::Exited => Ok(requested()),
        Stopped::Unobservable(reason) => Err(WorkerFault::Io(reason@)),
        Stopped::Killed { refused: Some(reason) } => Err(WorkerFault::Io(reason@)),
        Stopped::Killed { refused: None } => Err(
            WorkerFault::ShutdownTimeout { waited: w.deadlines.shutdown },
        ),
    }
}

/// A worker that was asked to stop.
pub open spec fn after_stop(w: Supervised, stopped: Stopped) -> Supervised {
    match stopped {
        Stopped::Exited => gone(w),
        Stopped::Unobservable(_) => w,
        Stopped::Killed { .. } => Supervised { has_process: false, ..w },
    }
}

/// Whether a result says the same as its model.
pub open spec fn exit_matches(
    result: Result<WorkerExit, WorkerError>,
    expected: Result<WorkerExit, WorkerFault>,
) -> bool {
    match (result, expected) {
        (Ok(exit), Ok(e)) => exit == e,
        (Err(error), Err(fault)) => error@ == fault,
        _ => false,
    }
}

/// Why a worker could not be killed, if it could not.
///
/// A worker that had exited before, or exited in the interval, needs no killing. Any
/// other refusal is reported: a worker that could not be killed must not be
/// described as stopped.
pub fn kill_refused(already_gone: bool, kill_error: Option<String>, gone_after: bool) -> (refused:
    Option<String>)
    ensures
        refused == if already_gone || gone_after {
            None::<String>
        } else {
            kill_error
        },
{
    if already_gone || gone_after {
        None
    } else {
        kill_error
    }
}

impl WorkerHandle {
    /// The worker's identifier.
    pub fn id(&self) -> (id: WorkerId)
        ensures
            id == self@.id,
    {
        self.id
    }

    /// Where the worker is in its lifecycle.
    pub fn state(&self) -> (state: WorkerState)
        ensures
            state == self@.state,
    {
        self.state
    }

    /// The deadlines this worker is held to.
    pub fn deadlines(&self) -> (deadlines: Deadlines)
        ensures
            deadlines == self@.deadlines,
    {
        self.deadlines
    }

    /// Whether a process is held.
    pub fn has_process(&self) -> (held: bool)
        ensures
            held == self@.has_process,
    {
        self.has_process
    }

    fn move_to(&mut self, to: WorkerState) -> (result: Result<(), WorkerError>)
        ensures
            match (result, moved(old(self)@, to)) {
                (Ok(()), Ok(after)) => final(self)@ == after,
                (Err(error), Err(fault)) => final(self)@ == old(self)@ && error@ == fault,
                _ => false,
            },
    {
        match self.state.transition_to(to) {
            Ok(next) => {
                self.state = next;
                Ok(())
            },
            Err(error) => Err(WorkerError::InvalidState(error)),
        }
    }

    /// Marks the worker failed after an external readiness decision.
    pub fn mark_failed(&mut self) -> (result: Result<(), WorkerError>)
        ensures
            match (result, moved(old(self)@, WorkerState::Failed)) {
                (Ok(()), Ok(after)) => final(self)@ == after,
                (Err(error), Err(fault)) => final(self)@ == old(self)@ && error@ == fault,
                _ => false,
            },
    {
        self.move_to(WorkerState::Failed)
    }

    /// Marks the worker ready after an external readiness decision.
    pub fn mark_ready(&mut self) -> (result: Result<(), WorkerError>)
        ensures
            match (result, moved(old(self)@, WorkerState::Ready)) {
                (Ok(()), Ok(after)) => final(self)@ == after,
                (Err(error), Err(fault)) => final(self)@ == old(self)@ && error@ == fault,
                _ => false,
            },
    {
        self.move_to(WorkerState::Ready)
    }

    fn fail_startup(&mut self, error: WorkerError) -> (step: StartupStep)
        ensures
            (final(self)@, step@) == startup_failed(old(self)@, error@),
    {
        match self.move_to(WorkerState::Failed) {
            Ok(()) => StartupStep::Done(Err(error)),
            Err(refused) => StartupStep::Done(Err(refused)),
        }
    }

    /// Records that the process was killed.
    pub fn killed(&mut self)
        ensures
            final(self)@ == (Supervised { has_process: false, ..old(self)@ }),
    {
        self.has_process = false;
    }
}

/// Supervises workers that are child processes.
#[derive(Debug, Clone, Copy, PartialEq, Eq, Structural)]
pub struct ProcessWorker;

impl Default for ProcessWorker {
    fn default() -> (supervisor: ProcessWorker)
        ensures
            supervisor == ProcessWorker,
    {
        ProcessWorker
    }
}

impl ProcessWorker {
    /// The handle of a worker that was to be started, given what came of that.
    ///
    /// A worker that cannot be brought under lifetime control is not supervised: it
    /// is to be killed, because it could outlive its owner.
    pub fn spawn(&self, spec: &WorkerSpec, spawned: Spawned) -> (result: Result<
        WorkerHandle,
        WorkerError,
    >)
        ensures
            match spawned {
                Spawned::Started => result matches Ok(handle) && handle@ == (Supervised {
                    id: spec.id,
                    state: WorkerState::Starting,
                    has_process: true,
                    deadlines: spec.deadlines,
                    stop: spec.stop,
                }),
                Spawned::Refused(reason) => result matches Err(error) && error@
                    == (WorkerFault::Spawn { program: spec.program@, source: reason@ }),
                Spawned::Uncontrolled(reason) => result matches Err(error) && error@
                    == WorkerFault::Io(reason@),
            },
    {
        match spawned {
            Spawned::Refused(reason) => Err(
                WorkerError::Spawn { program: spec.program.clone(), source: reason },
            ),
            Spawned::Uncontrolled(reason) => Err(WorkerError::Io(reason)),
            Spawned::Started => match WorkerState::Absent.transition_to(WorkerState::Starting) {
                Ok(state) => Ok(
                    WorkerHandle {
                        id: spec.id,
                        state,
                        has_process: true,
                        deadlines: spec.deadlines,
                        stop: spec.stop,
                    },
                ),
                Err(error) => Err(WorkerError::InvalidState(error)),
            },
        }
    }

    /// What a probe concludes from one item of its feed; `None` is to look at the next.
    pub fn wait_ready(&self, item: FeedItem) -> (outcome: Option<ProbeOutcome>)
        ensures
            outcome == item_says(item),
            item is Exhausted ==> outcome == Some(ProbeOutcome::NotYet),
            item is Lagged ==> outcome is None,
            item matches FeedItem::Line { stream, text } ==> (outcome is Some <==> stream is Stdout
                && exists|a: Seq<char>, b: Seq<char>|
                all_space(a) && text@ == #[trigger] (a + "MEHOY-WORKER-READY"@ + b)) && (
            outcome is Some ==> outcome == Some(
                ProbeOutcome::Ready(WorkerReady { announcement: text }),
            )),
    {
        proof {
            if item is Line {
                the_marker_stands_first(item->text@);
            }
        }
        match item {
            FeedItem::Line { stream, text } => {
                if stream == LogStream::Stdout && announces_readiness(text.as_str()) {
                    Some(ProbeOutcome::Ready(WorkerReady { announcement: text }))
                } else {
                    None
                }
            },
            FeedItem::Lagged => None,
            FeedItem::Exhausted => Some(ProbeOutcome::NotYet),
        }
    }

    /// How long a worker may take to become ready. One without a process never will.
    pub fn startup_budget(&self, handle: &WorkerHandle) -> (result: Result<u64, WorkerError>)
        ensures
            match result {
                Ok(budget) => handle@.has_process && budget == handle@.deadlines.startup,
                Err(error) => !handle@.has_process && error@ == WorkerFault::Io(
                    "worker has no process"@,
                ),
            },
    {
        if handle.has_process {
            Ok(handle.deadlines.startup)
        } else {
            Err(WorkerError::Io("worker has no process".to_owned()))
        }
    }

    /// What to do about a worker that is starting, given what happened.
    ///
    /// A dead process can never become ready, so its exit ends the startup at once.
    pub fn wait_ready_with(&self, handle: &mut WorkerHandle, event: StartupEvent) -> (step:
        StartupStep)
        ensures
            (final(handle)@, step@) == after_startup(old(handle)@, event),
    {
        match event {
            StartupEvent::Probed(ProbeOutcome::NotYet) => StartupStep::KeepWaiting,
            StartupEvent::Probed(ProbeOutcome::Ready(ready)) => match handle.move_to(
                WorkerState::Ready,
            ) {
                Ok(()) => StartupStep::Done(Ok(ready)),
                Err(refused) => StartupStep::Done(Err(refused)),
            },
            StartupEvent::ProbeFailed(error) => handle.fail_startup(error),
            StartupEvent::Unobservable(reason) => handle.fail_startup(WorkerError::Io(reason)),
            StartupEvent::Exited { code } => handle.fail_startup(
                WorkerError::ExitedDuringStartup { code },
            ),
            StartupEvent::TimedOut { elapsed } => {
                let budget: u64 = handle.deadlines.startup;
                match handle.move_to(WorkerState::Failed) {
                    Ok(()) => StartupStep::Kill(
                        WorkerError::StartupTimeout {
                            waited: if elapsed >= budget {
                                elapsed
                            } else {
                                budget
                            },
                        },
                    ),
                    Err(refused) => StartupStep::Done(Err(refused)),
                }
            },
        }
    }

    /// How to stop the worker.
    ///
    /// A worker with no graceful stop is terminated directly: asking and waiting out
    /// the deadline would report a timeout that describes the protocol.
    pub fn shutdown(&self, handle: &mut WorkerHandle) -> (step: ShutdownStep)
        ensures
            final(handle)@ == stopping(old(handle)@),
            step == shutdown_step(old(handle)@),
    {
        if handle.state == WorkerState::Ready {
            let _ = handle.move_to(WorkerState::Draining);
        }
        if handle.state == WorkerState::Draining {
            let _ = handle.move_to(WorkerState::Stopping);
        }
        if handle.stop == StopProtocol::Terminate {
            return ShutdownStep::Terminate;
        }
        if !handle.has_process {
            return ShutdownStep::Done(WorkerExit { cause: ExitCause::Requested });
        }
        ShutdownStep::Ask { budget: handle.deadlines.shutdown }
    }

    /// What to report of a worker that was terminated because it has no graceful
    /// stop. `refused` is why it could not be killed.
    pub fn terminated(&self, handle: &mut WorkerHandle, refused: Option<String>) -> (result: Result<
        WorkerExit,
        WorkerError,
    >)
        ensures
            match refused {
                Some(reason) => exit_matches(
                    result,
                    Err::<WorkerExit, WorkerFault>(WorkerFault::Io(reason@)),
                ) && final(handle)@ == (Supervised { has_process: false, ..old(handle)@ }),
                None => exit_matches(result, Ok::<WorkerExit, WorkerFault>(requested()))
                    && final(handle)@ == gone(old(handle)@),
            },
    {
        handle.has_process = false;
        match refused {
            Some(reason) => Err(WorkerError::Io(reason)),
            None => {
                if handle.state == WorkerState::Stopping {
                    let _ = handle.move_to(WorkerState::Absent);
                }
                Ok(WorkerExit { cause: ExitCause::Requested })
            },
        }
    }

    /// What to report of a worker that was asked to stop.
    pub fn stopped(&self, handle: &mut WorkerHandle, stopped: Stopped) -> (result: Result<
        WorkerExit,
        WorkerError,
    >)
        ensures
            exit_matches(result, stop_report(old(handle)@, stopped)),
            final(handle)@ == after_stop(old(handle)@, stopped),
    {
        match stopped {
            Stopped::Exited => self.terminated(handle, None),
            Stopped::Unobservable(reason) => Err(WorkerError::Io(reason)),
            Stopped::Killed { refused } => {
                handle.has_process = false;
                match refused {
                    Some(reason) => Err(WorkerError::Io(reason)),
                    None => Err(WorkerError::ShutdownTimeout { waited: handle.deadlines.shutdown }),
                }
            },
        }
    }

    /// What to report of a worker that was waited for. `exited` is the status it
    /// exited with, or why that could not be collected.
    ///
    /// An exit that was not requested is a failure, reported with its status.
    pub fn wait(&self, handle: &mut WorkerHandle, exited: Result<Option<i32>, String>) -> (result:
        Result<WorkerExit, WorkerError>)
        ensures
            if !old(handle)@.has_process {
                exit_matches(result, Ok::<WorkerExit, WorkerFault>(requested())) && final(handle)@
                    == old(handle)@
            } else {
                match exited {
                    Err(reason) => exit_matches(
                        result,
                        Err::<WorkerExit, WorkerFault>(WorkerFault::Io(reason@)),
                    ) && final(handle)@ == old(handle)@,
                    Ok(code) => exit_matches(
                        result,
                        Ok::<WorkerExit, WorkerFault>(
                            WorkerExit { cause: ExitCause::Unexpected { code } },
                        ),
                    ) && final(handle)@ == (Supervised {
                        has_process: false,
                        state: if permitted(old(handle)@.state, WorkerState::Failed) {
                            WorkerState::Failed
                        } else {
                            old(handle)@.state
                        },
                        ..old(handle)@
                    }),
                }
            },
    {
        if !handle.has_process {
            return Ok(WorkerExit { cause: ExitCause::Requested });
        }
        match exited {
            Err(reason) => Err(WorkerError::Io(reason)),
            Ok(code) => {
                handle.has_process = false;
                if handle.state.can_transition_to(WorkerState::Failed) {
                    let _ = handle.move_to(WorkerState::Failed);
                }
                Ok(WorkerExit { cause: ExitCause::Unexpected { code } })
            },
        }
    }
}

/// A worker can only become usable by announcing readiness while it was starting,
/// and a startup that fails leaves it failed.
pub proof fn startup_makes_ready_or_failed(w: Supervised, event: StartupEvent)
    requires
        w.state == WorkerState::Starting,
    ensures
        ({
            let (after, next) = after_startup(w, event);
            &&& next is KeepWaiting ==> after == w
            &&& next is Ready <==> after.state == WorkerState::Ready
            &&& next is Failed || next is Kill ==> after.state == WorkerState::Failed
            &&& after.state == WorkerState::Ready ==> event matches StartupEvent::Probed(
                ProbeOutcome::Ready(_),
            )
        }),
{
}

/// What happens to a starting worker decides what becomes of it: an answer that it is
/// ready makes it ready, one that it is not has it waited for, its exit and a failed
/// probe are failures with what they were, and a deadline that passed has it killed,
/// with how long was waited, which is never less than the deadline.
pub proof fn what_happens_to_a_starting_worker_decides(w: Supervised, event: StartupEvent)
    requires
        w.state == WorkerState::Starting,
    ensures
        ({
            let (after, next) = after_startup(w, event);
            &&& after.id == w.id && after.has_process == w.has_process && after.deadlines
                == w.deadlines && after.stop == w.stop
            &&& match event {
                StartupEvent::Probed(ProbeOutcome::NotYet) => next is KeepWaiting,
                StartupEvent::Probed(ProbeOutcome::Ready(ready)) => next == StartupNext::Ready(
                    ready.announcement@,
                ),
                StartupEvent::ProbeFailed(error) => next == StartupNext::Failed(error@),
                StartupEvent::Unobservable(reason) => next == StartupNext::Failed(
                    WorkerFault::Io(reason@),
                ),
                StartupEvent::Exited { code } => next == StartupNext::Failed(
                    WorkerFault::ExitedDuringStartup { code },
                ),
                StartupEvent::TimedOut { elapsed } => {
                    &&& next is Kill
                    &&& next->Kill_0 is StartupTimeout
                    &&& next->Kill_0->StartupTimeout_waited >= elapsed
                    &&& next->Kill_0->StartupTimeout_waited >= w.deadlines.startup
                    &&& next->Kill_0->StartupTimeout_waited == elapsed
                        || next->Kill_0->StartupTimeout_waited == w.deadlines.startup
                },
            }
        }),
{
}

/// A worker without a graceful stop is terminated; any other that has a process is asked
/// to stop within its own deadline, and one without is done. A worker that was ready or
/// draining is stopping from then on, and nothing else about it changes.
pub proof fn a_worker_is_stopped_as_it_can_be(w: Supervised)
    ensures
        w.stop is Terminate ==> shutdown_step(w) is Terminate,
        w.stop is ShutdownLine && w.has_process ==> shutdown_step(w) == (ShutdownStep::Ask {
            budget: w.deadlines.shutdown,
        }),
        w.stop is ShutdownLine && !w.has_process ==> shutdown_step(w) == ShutdownStep::Done(
            WorkerExit { cause: ExitCause::Requested },
        ),
        w.state is Ready || w.state is Draining ==> stopping(w) == (Supervised {
            state: WorkerState::Stopping,
            ..w
        }),
        !(w.state is Ready || w.state is Draining) ==> stopping(w) == w,
{
}

/// A stop is reported as done exactly when the worker exited; one that had to be killed
/// is reported as having ignored its deadline, and one that could not be killed or
/// observed as that.
pub proof fn only_an_exit_is_a_stop(w: Supervised, stopped: Stopped)
    ensures
        match stopped {
            Stopped::Exited => stop_report(w, stopped) == Ok::<WorkerExit, WorkerFault>(
                WorkerExit { cause: ExitCause::Requested },
            ) && !after_stop(w, stopped).has_process,
            Stopped::Unobservable(reason) => stop_report(w, stopped) == Err::<
                WorkerExit,
                WorkerFault,
            >(WorkerFault::Io(reason@)) && after_stop(w, stopped) == w,
            Stopped::Killed { refused } => {
                &&& refused is None ==> stop_report(w, stopped) == Err::<WorkerExit, WorkerFault>(
                    WorkerFault::ShutdownTimeout { waited: w.deadlines.shutdown },
                )
                &&& refused is Some ==> stop_report(w, stopped) == Err::<WorkerExit, WorkerFault>(
                    WorkerFault::Io(refused->0@),
                )
                &&& after_stop(w, stopped) == (Supervised { has_process: false, ..w })
            },
        },
        w.state is Stopping ==> gone(w) == (Supervised {
            has_process: false,
            state: WorkerState::Absent,
            ..w
        }),
        !(w.state is Stopping) ==> gone(w) == (Supervised { has_process: false, ..w }),
{
}

/// Stopping a worker that was ready goes through draining and stopping, and a stop
/// that is reported as done leaves no process and no worker.
pub proof fn a_reported_stop_leaves_nothing_behind(w: Supervised, stopped: Stopped)
    requires
        w.state == WorkerState::Ready,
    ensures
        permitted(w.state, WorkerState::Draining),
        permitted(WorkerState::Draining, stopping(w).state),
        stop_report(stopping(w), stopped) is Ok ==> {
            let after = after_stop(stopping(w), stopped);
            after.state == WorkerState::Absent && !after.has_process
        },
{
}

/// Deadlines used when a spec does not state its own.
pub fn default_deadlines() -> (deadlines: Deadlines)
    ensures
        deadlines == (Deadlines {
            startup: 30_000_000_000,
            shutdown: 10_000_000_000,
            health: 5_000_000_000,
        }),
{
    Deadlines::default()
}

/// A move that the machine permits changes the state of a worker and nothing else; any
/// other is refused with the two states and changes nothing.
pub proof fn a_move_changes_the_state_alone(w: Supervised, to: WorkerState)
    ensures
        permitted(w.state, to) ==> moved(w, to) == Ok::<Supervised, WorkerFault>(
            Supervised { state: to, ..w },
        ),
        !permitted(w.state, to) ==> moved(w, to) == Err::<Supervised, WorkerFault>(
            WorkerFault::InvalidState(WorkerStateError { from: w.state, to }),
        ),
        !(w.state is Starting) ==> moved(w, WorkerState::Ready) is Err,
        w.state is Absent || w.state is Failed ==> moved(w, WorkerState::Failed) is Err,
{
}

} // verus!
