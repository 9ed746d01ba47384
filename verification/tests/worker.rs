use mehoy::event::ExitCause;
use mehoy::id::WorkerId;
use mehoy::worker::log::{LogHandle, LogLine, LogStream, WorkerLog, DEFAULT_CAPTURE_LINES};
use mehoy::worker::process::{
    announces_readiness, default_deadlines, kill_refused, FeedItem, ProbeOutcome, ProcessWorker,
    ShutdownStep, Spawned, StartupEvent, StartupStep, Stopped, WorkerHandle, READY_MARKER,
    SHUTDOWN_COMMAND,
};
use mehoy::worker::state::{WorkerState, WorkerStateError};
use mehoy::worker::{Deadlines, StopProtocol, WorkerError, WorkerExit, WorkerReady, WorkerSpec};

const ALL: [WorkerState; 6] = [
    WorkerState::Absent,
    WorkerState::Starting,
    WorkerState::Ready,
    WorkerState::Draining,
    WorkerState::Stopping,
    WorkerState::Failed,
];

#[test]
fn the_happy_path_is_permitted_end_to_end() {
    let mut state = WorkerState::Absent;
    for next in [
        WorkerState::Starting,
        WorkerState::Ready,
        WorkerState::Draining,
        WorkerState::Stopping,
        WorkerState::Absent,
    ] {
        state = state.transition_to(next).expect("permitted transition");
    }
    assert_eq!(state, WorkerState::Absent);
}

#[test]
fn failed_is_terminal_and_has_no_way_back() {
    assert!(WorkerState::Failed.is_terminal());
    for next in ALL {
        assert!(
            !WorkerState::Failed.can_transition_to(next),
            "failed must not transition to {}", next.to_string()
        );
    }
}

#[test]
fn a_worker_never_restarts_itself() {
    // Recovery is explicit. A direct edge from Failed back into Starting would be an
    // automatic restart.
    assert!(!WorkerState::Failed.can_transition_to(WorkerState::Starting));
    assert!(!WorkerState::Failed.can_transition_to(WorkerState::Ready));
}

#[test]
fn only_ready_is_usable() {
    for state in ALL {
        assert_eq!(
            state.is_usable(),
            state == WorkerState::Ready,
            "{} usability", state.to_string()
        );
    }
}

#[test]
fn a_worker_cannot_become_ready_without_starting() {
    assert!(!WorkerState::Absent.can_transition_to(WorkerState::Ready));
    let err = WorkerState::Absent
        .transition_to(WorkerState::Ready)
        .expect_err("must be rejected");
    assert_eq!(err.from, WorkerState::Absent);
    assert_eq!(err.to, WorkerState::Ready);
}

#[test]
fn shutdown_cannot_skip_draining() {
    assert!(!WorkerState::Ready.can_transition_to(WorkerState::Stopping));
    assert!(!WorkerState::Ready.can_transition_to(WorkerState::Absent));
}

#[test]
fn every_state_except_absent_and_failed_can_fail() {
    // A worker can die at any point once a process exists. Absent has no
    // process to lose, and Failed is already there.
    for state in [
        WorkerState::Starting,
        WorkerState::Ready,
        WorkerState::Draining,
        WorkerState::Stopping,
    ] {
        assert!(
            state.can_transition_to(WorkerState::Failed),
            "{} must be able to fail", state.to_string()
        );
    }
    assert!(!WorkerState::Absent.can_transition_to(WorkerState::Failed));
}

#[test]
fn rejected_transitions_report_both_ends() {
    let err = WorkerState::Starting
        .transition_to(WorkerState::Draining)
        .expect_err("must be rejected");
    let message = err.to_string();
    assert!(message.contains("starting"), "{message}");
    assert!(message.contains("draining"), "{message}");
}

#[test]
fn states_and_refused_moves_are_put_in_words() {
    let words: Vec<String> = ALL.iter().map(|s| s.to_string()).collect();
    assert_eq!(words, vec!["absent", "starting", "ready", "draining", "stopping", "failed"]);
    for from in ALL {
        for to in ALL {
            let outcome = from.transition_to(to);
            if from.can_transition_to(to) {
                assert_eq!(outcome, Ok(to));
            } else {
                assert_eq!(outcome, Err(WorkerStateError { from, to }));
            }
        }
    }
}

// -------------------------------------------------------------------------- log

#[test]
fn retains_only_the_most_recent_lines() {
    let mut log = LogHandle::new(3);
    for index in 0..10 {
        log.record(LogStream::Stdout, 0, format!("line {index}"));
    }
    let lines = log.lines();
    assert_eq!(lines.len(), 3);
    assert_eq!(lines[0].text, "line 7");
    assert_eq!(lines[2].text, "line 9");
}

#[test]
fn a_noisy_worker_cannot_grow_the_buffer() {
    let mut log = LogHandle::new(4);
    for index in 0..100_000 {
        log.record(LogStream::Stderr, 0, format!("noise {index}"));
    }
    assert_eq!(log.lines().len(), 4);
    assert_eq!(log.dropped(), 99_996);
}

#[test]
fn dropped_lines_are_reported_rather_than_hidden() {
    let mut log = LogHandle::new(2);
    for index in 0..5 {
        log.record(LogStream::Stdout, 0, format!("line {index}"));
    }
    let rendered = log.render();
    assert!(rendered.contains("3 earlier line(s) dropped"), "{rendered}");
    assert!(rendered.contains("line 4"), "{rendered}");
}

#[test]
fn streams_are_distinguishable() {
    let mut log = LogHandle::new(10);
    log.record(LogStream::Stdout, 0, "out".to_owned());
    log.record(LogStream::Stderr, 0, "err".to_owned());
    assert_eq!(log.lines_from(LogStream::Stderr).len(), 1);
    assert_eq!(log.lines_from(LogStream::Stderr)[0].text, "err");
    assert_eq!(log.lines_from(LogStream::Stdout)[0].text, "out");
}

#[test]
fn zero_capacity_still_records_something() {
    let mut log = LogHandle::new(0);
    log.record(LogStream::Stdout, 0, "only".to_owned());
    assert_eq!(log.lines().len(), 1);
}

#[test]
fn a_log_renders_what_it_holds_and_what_it_lost() {
    let mut log = LogHandle::new(2);
    assert_eq!(log.render(), "");
    log.record(LogStream::Stdout, 1, "one".to_owned());
    log.record(LogStream::Stderr, 2, "two".to_owned());
    assert_eq!(log.render(), "[stdout] one\n[stderr] two\n");
    assert_eq!(log.dropped(), 0);
    log.record(LogStream::Stdout, 3, "three".to_owned());
    assert_eq!(
        log.render(),
        "... 1 earlier line(s) dropped ...\n[stderr] two\n[stdout] three\n"
    );
    assert_eq!(log.lines()[1].at, 3);
}

#[test]
fn the_default_log_holds_its_default_number_of_lines() {
    let mut log = LogHandle::default();
    for index in 0..(DEFAULT_CAPTURE_LINES + 1) {
        log.record(LogStream::Stdout, 0, format!("{index}"));
    }
    assert_eq!(log.lines().len(), DEFAULT_CAPTURE_LINES);
    assert_eq!(log.lines()[0].text, "1");
}

#[test]
fn a_bare_log_counts_what_was_recorded() {
    let mut log = WorkerLog::with_capacity(1);
    let line = LogLine { stream: LogStream::Stderr, at: 9, text: "x".to_owned() };
    log.push(line.copy());
    log.push(line.copy());
    assert_eq!(log.total_recorded(), 2);
    assert_eq!(log.dropped(), 1);
    assert_eq!(log.lines(), vec![line.copy()]);
    assert_eq!(log.lines_from(LogStream::Stdout), vec![]);
    assert_eq!(line.to_string(), "[stderr] x");
}

// ------------------------------------------------------------------ supervision

#[test]
fn ready_marker_is_matched_at_the_start_of_a_line() {
    assert!(READY_MARKER.starts_with("MEHOY"));
    let announcement = format!("{READY_MARKER} port=1234");
    assert!(announcement.starts_with(READY_MARKER));
    assert!(announces_readiness(&announcement));
}

#[test]
fn default_deadlines_are_distinct_numbers() {
    // If these ever collapse into one value, the reason for keeping them separate has
    // been lost.
    let deadlines = default_deadlines();
    assert!(deadlines.startup > deadlines.health);
    assert!(deadlines.shutdown > 0);
    assert_ne!(deadlines.startup, deadlines.shutdown);
}

fn quick() -> Deadlines {
    Deadlines { startup: 5_000_000_000, shutdown: 2_000_000_000, health: 1_000_000_000 }
}

fn spec(deadlines: Deadlines, stop: StopProtocol) -> WorkerSpec {
    WorkerSpec {
        id: WorkerId::from_raw(1),
        program: "worker".to_owned(),
        args: vec!["--ready".to_owned()],
        deadlines,
        capture_lines: 16,
        stop,
    }
}

fn starting(deadlines: Deadlines, stop: StopProtocol) -> WorkerHandle {
    ProcessWorker.spawn(&spec(deadlines, stop), Spawned::Started).expect("worker starts")
}

/// Feeds a probe the lines a worker printed, then asks it what it concluded.
fn probe(lines: &[&str]) -> ProbeOutcome {
    probe_stream(LogStream::Stdout, lines)
}

fn probe_stream(stream: LogStream, lines: &[&str]) -> ProbeOutcome {
    for line in lines {
        let item = FeedItem::Line { stream, text: (*line).to_owned() };
        if let Some(outcome) = ProcessWorker.wait_ready(item) {
            return outcome;
        }
    }
    ProcessWorker.wait_ready(FeedItem::Exhausted).expect("an exhausted feed decides")
}

fn ready(deadlines: Deadlines, stop: StopProtocol) -> WorkerHandle {
    let mut handle = starting(deadlines, stop);
    let event = StartupEvent::Probed(probe(&["loading", READY_MARKER]));
    let step = ProcessWorker.wait_ready_with(&mut handle, event);
    assert!(matches!(step, StartupStep::Done(Ok(_))), "worker becomes ready");
    handle
}

#[test]
fn a_worker_starts_becomes_ready_and_stops_politely() {
    let supervisor = ProcessWorker;
    let mut handle = starting(quick(), StopProtocol::ShutdownLine);
    assert_eq!(handle.state(), WorkerState::Starting);
    assert_eq!(handle.id(), WorkerId::from_raw(1));
    assert_eq!(supervisor.startup_budget(&handle), Ok(quick().startup));

    let event = StartupEvent::Probed(probe(&["MEHOY-WORKER-READY port=1"]));
    match supervisor.wait_ready_with(&mut handle, event) {
        StartupStep::Done(Ok(ready)) => {
            assert!(ready.announcement.contains("MEHOY-WORKER-READY"));
        }
        other => panic!("expected readiness, got {other:?}"),
    }
    assert_eq!(handle.state(), WorkerState::Ready);
    assert!(handle.state().is_usable());

    assert_eq!(
        supervisor.shutdown(&mut handle),
        ShutdownStep::Ask { budget: quick().shutdown }
    );
    assert_eq!(handle.state(), WorkerState::Stopping);
    let exit = supervisor.stopped(&mut handle, Stopped::Exited).expect("worker stops politely");
    assert_eq!(exit.cause, ExitCause::Requested);
    assert!(exit.cause.is_expected());
    assert_eq!(handle.state(), WorkerState::Absent);
    assert!(!handle.has_process());
    assert_eq!(SHUTDOWN_COMMAND, "shutdown");
}

#[test]
fn readiness_waits_for_the_announcement_not_the_process() {
    // A running process is not readiness.
    let mut handle = starting(quick(), StopProtocol::ShutdownLine);
    assert_eq!(probe(&["loading", "still loading"]), ProbeOutcome::NotYet);
    assert_eq!(
        ProcessWorker.wait_ready_with(&mut handle, StartupEvent::Probed(ProbeOutcome::NotYet)),
        StartupStep::KeepWaiting
    );
    assert_eq!(handle.state(), WorkerState::Starting);
    assert_eq!(ProcessWorker.wait_ready(FeedItem::Lagged), None);
}

#[test]
fn readiness_is_announced_on_standard_output_only() {
    let lines = ["loading", READY_MARKER];
    assert_eq!(probe_stream(LogStream::Stderr, &lines), ProbeOutcome::NotYet);
    assert!(matches!(probe_stream(LogStream::Stdout, &lines), ProbeOutcome::Ready(_)));
}

#[test]
fn an_announcement_may_be_indented_and_must_begin_the_line() {
    assert!(announces_readiness("  \tMEHOY-WORKER-READY"));
    assert!(!announces_readiness("not MEHOY-WORKER-READY"));
    assert!(!announces_readiness(""));
}

#[test]
fn a_worker_that_never_becomes_ready_hits_its_startup_deadline() {
    let deadlines = Deadlines { startup: 400_000_000, ..quick() };
    let mut handle = starting(deadlines, StopProtocol::ShutdownLine);
    match ProcessWorker
        .wait_ready_with(&mut handle, StartupEvent::TimedOut { elapsed: 400_000_001 })
    {
        StartupStep::Kill(err) => assert!(
            matches!(err, WorkerError::StartupTimeout { waited: 400_000_001 }),
            "expected a startup timeout, got {}",
            err.to_string()
        ),
        other => panic!("expected the worker to be killed, got {other:?}"),
    }
    assert_eq!(handle.state(), WorkerState::Failed);
    // A worker that never became ready must not be left running.
    handle.killed();
    assert!(!handle.has_process(), "worker was left alive after timing out");
}

#[test]
fn a_deadline_noticed_early_is_still_reported_in_full() {
    let mut handle = starting(quick(), StopProtocol::ShutdownLine);
    assert_eq!(
        ProcessWorker.wait_ready_with(&mut handle, StartupEvent::TimedOut { elapsed: 1 }),
        StartupStep::Kill(WorkerError::StartupTimeout { waited: quick().startup })
    );
}

#[test]
fn a_worker_that_exits_during_startup_is_reported_with_its_status() {
    let mut handle = starting(quick(), StopProtocol::ShutdownLine);
    match ProcessWorker.wait_ready_with(&mut handle, StartupEvent::Exited { code: Some(7) }) {
        StartupStep::Done(Err(WorkerError::ExitedDuringStartup { code })) => {
            assert_eq!(code, Some(7));
        }
        other => panic!("expected ExitedDuringStartup, got {other:?}"),
    }
    assert_eq!(handle.state(), WorkerState::Failed);
}

#[test]
fn a_probe_or_an_observation_that_fails_ends_the_startup() {
    let mut probed = starting(quick(), StopProtocol::ShutdownLine);
    assert_eq!(
        ProcessWorker.wait_ready_with(
            &mut probed,
            StartupEvent::ProbeFailed(WorkerError::Io("refused".to_owned()))
        ),
        StartupStep::Done(Err(WorkerError::Io("refused".to_owned())))
    );
    assert_eq!(probed.state(), WorkerState::Failed);
    let mut unseen = starting(quick(), StopProtocol::ShutdownLine);
    assert_eq!(
        ProcessWorker
            .wait_ready_with(&mut unseen, StartupEvent::Unobservable("no such process".to_owned())),
        StartupStep::Done(Err(WorkerError::Io("no such process".to_owned())))
    );
    assert_eq!(unseen.state(), WorkerState::Failed);
}

#[test]
fn readiness_cannot_be_announced_twice() {
    let mut handle = ready(quick(), StopProtocol::ShutdownLine);
    let again = StartupEvent::Probed(ProbeOutcome::Ready(WorkerReady {
        announcement: READY_MARKER.to_owned(),
    }));
    match ProcessWorker.wait_ready_with(&mut handle, again) {
        StartupStep::Done(Err(WorkerError::InvalidState(error))) => {
            assert_eq!(error.from, WorkerState::Ready);
            assert_eq!(error.to, WorkerState::Ready);
        }
        other => panic!("expected a refused move, got {other:?}"),
    }
    assert_eq!(handle.state(), WorkerState::Ready);
}

#[test]
fn an_external_decision_moves_a_worker_as_the_machine_permits() {
    let mut handle = starting(quick(), StopProtocol::ShutdownLine);
    assert!(handle.mark_ready().is_ok());
    assert!(handle.mark_ready().is_err());
    assert!(handle.mark_failed().is_ok());
    assert_eq!(
        handle.mark_ready(),
        Err(WorkerError::InvalidState(WorkerStateError {
            from: WorkerState::Failed,
            to: WorkerState::Ready,
        }))
    );
    assert_eq!(handle.deadlines(), quick());
}

#[test]
fn an_unexpected_exit_after_ready_is_a_failure_carrying_its_code() {
    let mut handle = ready(quick(), StopProtocol::ShutdownLine);
    let exit = ProcessWorker.wait(&mut handle, Ok(Some(9))).expect("exit observed");
    assert_eq!(exit.cause, ExitCause::Unexpected { code: Some(9) });
    assert!(!exit.cause.is_expected());
    assert_eq!(handle.state(), WorkerState::Failed);
    assert!(
        handle.state().is_terminal(),
        "a crashed worker must require explicit recovery, not restart itself"
    );
    // There is nothing left to wait for.
    assert_eq!(
        ProcessWorker.wait(&mut handle, Ok(Some(9))),
        Ok(WorkerExit { cause: ExitCause::Requested })
    );
    assert_eq!(
        ProcessWorker.startup_budget(&handle),
        Err(WorkerError::Io("worker has no process".to_owned()))
    );
}

#[test]
fn an_exit_that_cannot_be_collected_is_reported() {
    let mut handle = ready(quick(), StopProtocol::ShutdownLine);
    assert_eq!(
        ProcessWorker.wait(&mut handle, Err("interrupted".to_owned())),
        Err(WorkerError::Io("interrupted".to_owned()))
    );
    assert!(handle.has_process());
    let _ = ProcessWorker.shutdown(&mut handle);
    assert_eq!(
        ProcessWorker.stopped(&mut handle, Stopped::Unobservable("interrupted".to_owned())),
        Err(WorkerError::Io("interrupted".to_owned()))
    );
    assert_eq!(handle.state(), WorkerState::Stopping);
}

#[test]
fn a_worker_that_ignores_shutdown_is_killed_and_that_is_reported() {
    let deadlines = Deadlines { shutdown: 400_000_000, ..quick() };
    let mut handle = ready(deadlines, StopProtocol::ShutdownLine);
    assert_eq!(
        ProcessWorker.shutdown(&mut handle),
        ShutdownStep::Ask { budget: 400_000_000 }
    );
    let err = ProcessWorker
        .stopped(&mut handle, Stopped::Killed { refused: None })
        .expect_err("must report that it had to be killed");
    assert!(
        matches!(err, WorkerError::ShutdownTimeout { .. }),
        "expected a shutdown timeout, got {}",
        err.to_string()
    );
    // Killed either way. The error says how it stopped, not whether it stopped.
    assert!(!handle.has_process(), "worker survived shutdown");
}

#[test]
fn a_worker_that_could_not_be_killed_is_not_called_stopped() {
    let mut asked = ready(quick(), StopProtocol::ShutdownLine);
    let _ = ProcessWorker.shutdown(&mut asked);
    assert_eq!(
        ProcessWorker.stopped(&mut asked, Stopped::Killed { refused: Some("denied".to_owned()) }),
        Err(WorkerError::Io("denied".to_owned()))
    );
    let mut terminated = ready(quick(), StopProtocol::Terminate);
    let _ = ProcessWorker.shutdown(&mut terminated);
    assert_eq!(
        ProcessWorker.terminated(&mut terminated, Some("denied".to_owned())),
        Err(WorkerError::Io("denied".to_owned()))
    );
    assert_eq!(terminated.state(), WorkerState::Stopping);

    assert_eq!(kill_refused(false, Some("denied".to_owned()), false), Some("denied".to_owned()));
    assert_eq!(kill_refused(true, Some("denied".to_owned()), false), None);
    assert_eq!(kill_refused(false, Some("denied".to_owned()), true), None);
    assert_eq!(kill_refused(false, None, false), None);
}

#[test]
fn spawning_a_program_that_does_not_exist_fails_clearly() {
    let mut spec = spec(quick(), StopProtocol::ShutdownLine);
    spec.program = "mehoy-no-such-worker-binary".to_owned();
    let err = ProcessWorker
        .spawn(&spec, Spawned::Refused("no such file".to_owned()))
        .expect_err("must fail");
    assert!(
        matches!(err, WorkerError::Spawn { .. }),
        "expected a spawn failure, got {}",
        err.to_string()
    );
    assert_eq!(
        err.to_string(),
        "cannot start worker mehoy-no-such-worker-binary: no such file"
    );
    assert_eq!(
        ProcessWorker
            .spawn(&spec, Spawned::Uncontrolled("no job".to_owned()))
            .expect_err("an uncontrolled worker is not supervised"),
        WorkerError::Io("no job".to_owned())
    );
}

#[test]
fn a_worker_with_no_stop_protocol_is_terminated_without_waiting() {
    // Termination is the agreed mechanism for such a worker, so it is neither slow
    // nor a failure.
    let mut handle = ready(quick(), StopProtocol::Terminate);
    assert_eq!(ProcessWorker.shutdown(&mut handle), ShutdownStep::Terminate);
    let exit = ProcessWorker
        .terminated(&mut handle, None)
        .expect("termination is the defined stop, not a failure");
    assert_eq!(exit.cause, ExitCause::Requested);
    assert!(!handle.has_process(), "the worker survived termination");
    assert_eq!(handle.state(), WorkerState::Absent);
}

#[test]
fn a_worker_that_does_implement_the_stop_protocol_still_reports_ignoring_it() {
    let deadlines = Deadlines { shutdown: 400_000_000, ..quick() };
    let mut handle = ready(deadlines, StopProtocol::ShutdownLine);
    let _ = ProcessWorker.shutdown(&mut handle);
    let err = ProcessWorker
        .stopped(&mut handle, Stopped::Killed { refused: None })
        .expect_err("ignoring a protocol the worker implements is still a fault");
    assert_eq!(err, WorkerError::ShutdownTimeout { waited: 400_000_000 });
}

#[test]
fn a_worker_without_a_process_is_already_stopped() {
    let mut handle = ready(quick(), StopProtocol::ShutdownLine);
    handle.killed();
    assert_eq!(
        ProcessWorker.shutdown(&mut handle),
        ShutdownStep::Done(WorkerExit { cause: ExitCause::Requested })
    );
}

#[test]
fn supervision_failures_are_put_in_words() {
    assert_eq!(
        WorkerError::StartupTimeout { waited: 400_000_000 }.to_string(),
        "worker did not become ready within 0.4s"
    );
    assert_eq!(
        WorkerError::ShutdownTimeout { waited: 1_500_000_000 }.to_string(),
        "worker ignored shutdown for 1.5s and was terminated"
    );
    assert_eq!(
        WorkerError::ExitedDuringStartup { code: Some(-9) }.to_string(),
        "worker exited before becoming ready (status -9)"
    );
    assert_eq!(
        WorkerError::ExitedDuringStartup { code: None }.to_string(),
        "worker exited before becoming ready (status unknown)"
    );
    assert_eq!(
        WorkerError::Io("denied".to_owned()).to_string(),
        "worker supervision failure: denied"
    );
    let error = WorkerStateError { from: WorkerState::Failed, to: WorkerState::Ready };
    assert_eq!(WorkerError::InvalidState(error).to_string(), error.to_string());
}
