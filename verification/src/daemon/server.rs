//! Decisions of the accept loop and the shutdown sequence.

use vstd::prelude::*;

use crate::transport::IoKind;

verus! {

/// How long in-flight connections are given to finish once shutdown begins, in
/// nanoseconds. A shutdown deadline, not a request timeout.
pub const DRAIN_DEADLINE: u64 = 5_000_000_000;

/// Whether a failure affects only the connection being accepted.
pub open spec fn transient(kind: IoKind) -> bool {
    kind == IoKind::ConnectionAborted || kind == IoKind::ConnectionReset || kind
        == IoKind::Interrupted || kind == IoKind::BrokenPipe
}

/// Whether an accept failure affects only the connection being accepted.
pub fn is_transient(kind: IoKind) -> (yes: bool)
    ensures
        yes == transient(kind),
        yes <==> kind is ConnectionAborted || kind is ConnectionReset || kind is Interrupted
            || kind is BrokenPipe,
{
    matches!(
        kind,
        IoKind::ConnectionAborted | IoKind::ConnectionReset | IoKind::Interrupted
            | IoKind::BrokenPipe
    )
}

/// What the accept loop observed.
#[derive(Debug, Clone, Copy, PartialEq, Eq, Structural)]
pub enum ServeEvent {
    /// The daemon was asked to stop.
    Shutdown,
    /// A client connected.
    Accepted,
    /// Accepting failed.
    AcceptFailed(IoKind),
    /// A connection finished.
    Finished,
}

/// What the accept loop does.
#[derive(Debug, Clone, Copy, PartialEq, Eq, Structural)]
pub enum ServeStep {
    /// Serve the connection in a task of its own and go on accepting.
    Spawn,
    /// Go on accepting.
    Continue,
    /// Stop accepting, drain and end well.
    Drain,
    /// End with the failure.
    Fail,
}

/// What the accept loop does. A client that went away mid-handshake is no reason to
/// stop serving everyone else.
pub fn serve(event: ServeEvent) -> (step: ServeStep)
    ensures
        step == match event {
            ServeEvent::Shutdown => ServeStep::Drain,
            ServeEvent::Accepted => ServeStep::Spawn,
            ServeEvent::AcceptFailed(kind) => if transient(kind) {
                ServeStep::Continue
            } else {
                ServeStep::Fail
            },
            ServeEvent::Finished => ServeStep::Continue,
        },
        step is Drain <==> event is Shutdown,
        step is Spawn <==> event is Accepted,
        step is Fail <==> (event matches ServeEvent::AcceptFailed(kind) && !(
        kind is ConnectionAborted || kind is ConnectionReset || kind is Interrupted
            || kind is BrokenPipe)),
{
    match event {
        ServeEvent::Shutdown => ServeStep::Drain,
        ServeEvent::Accepted => ServeStep::Spawn,
        ServeEvent::AcceptFailed(kind) => if is_transient(kind) {
            ServeStep::Continue
        } else {
            ServeStep::Fail
        },
        ServeEvent::Finished => ServeStep::Continue,
    }
}

/// What draining observed.
#[derive(Debug, Clone, Copy, PartialEq, Eq, Structural)]
pub enum DrainEvent {
    /// The deadline passed.
    Deadline,
    /// A connection finished.
    Finished,
    /// No connection is left.
    Empty,
}

/// What draining does.
#[derive(Debug, Clone, Copy, PartialEq, Eq, Structural)]
pub enum DrainStep {
    /// Wait for the next connection or the deadline.
    Wait,
    /// Abandon the connections that are left.
    AbortAll,
    /// All is done.
    Done,
}

/// What draining does: it waits for outstanding connections and abandons those that
/// overrun.
pub fn drain(event: DrainEvent) -> (step: DrainStep)
    ensures
        step == match event {
            DrainEvent::Deadline => DrainStep::AbortAll,
            DrainEvent::Finished => DrainStep::Wait,
            DrainEvent::Empty => DrainStep::Done,
        },
{
    match event {
        DrainEvent::Deadline => DrainStep::AbortAll,
        DrainEvent::Finished => DrainStep::Wait,
        DrainEvent::Empty => DrainStep::Done,
    }
}

} // verus!
