//! Bounded capture of a worker's output.
//!
//! A backend's standard error is where the evidence of a failure appears first. The
//! capture keeps the most recent lines, so a noisy backend cannot consume the
//! daemon's memory ([`the_most_recent_lines_are_kept`]), and says how many it
//! dropped. Output is diagnostic evidence, not protocol.

use std::collections::VecDeque;

use vstd::prelude::*;
use vstd::string::*;

use crate::text::{a_number_reads_back_from_its_decimal, decimal, decimal_u64, reads_as};

verus! {

/// Which of a worker's streams a line came from.
#[derive(Debug, Clone, Copy, PartialEq, Eq, Structural)]
pub enum LogStream {
    Stdout,
    Stderr,
}

pub open spec fn stream_text(stream: LogStream) -> Seq<char> {
    match stream {
        LogStream::Stdout => "stdout"@,
        LogStream::Stderr => "stderr"@,
    }
}

impl LogStream {
    pub fn to_string(&self) -> (text: String)
        ensures
            text@ == stream_text(*self),
            self is Stdout ==> text@ == "stdout"@,
            self is Stderr ==> text@ == "stderr"@,
    {
        match self {
            LogStream::Stdout => "stdout".to_owned(),
            LogStream::Stderr => "stderr".to_owned(),
        }
    }
}

/// One captured line, with when it was captured in nanoseconds of the recorder's
/// clock.
#[derive(Debug, Clone, PartialEq, Eq)]
pub struct LogLine {
    pub stream: LogStream,
    pub at: u64,
    pub text: String,
}

/// What a [`LogLine`] says.
pub struct Line {
    pub stream: LogStream,
    pub at: u64,
    pub text: Seq<char>,
}

pub open spec fn line_text(line: Line) -> Seq<char> {
    "["@ + stream_text(line.stream) + "] "@ + line.text
}

impl LogLine {
    pub open spec fn view(&self) -> Line {
        Line { stream: self.stream, at: self.at, text: self.text@ }
    }

    pub fn to_string(&self) -> (text: String)
        ensures
            text@ == line_text(self@),
    {
        let mut text = "[".to_owned();
        text.append(self.stream.to_string().as_str());
        text.append("] ");
        text.append(self.text.as_str());
        text
    }

    /// Another copy of the line.
    pub fn copy(&self) -> (line: LogLine)
        ensures
            line@ == self@,
    {
        LogLine { stream: self.stream, at: self.at, text: self.text.clone() }
    }
}

pub open spec fn lines_view(lines: Seq<LogLine>) -> Seq<Line> {
    lines.map_values(|line: LogLine| line@)
}

/// How many lines to retain when a spec does not say.
pub const DEFAULT_CAPTURE_LINES: usize = 512;

/// What a log holds.
#[verifier::ext_equal]
pub struct LogState {
    /// The most lines it retains.
    pub capacity: nat,
    /// The retained lines, oldest first.
    pub lines: Seq<Line>,
    /// How many lines were ever recorded, as far as it counts.
    pub total: u64,
}

/// An empty log. A capacity of zero is raised to one.
pub open spec fn empty_log(capacity: usize) -> LogState {
    LogState {
        capacity: if capacity == 0 {
            1
        } else {
            capacity as nat
        },
        lines: Seq::empty(),
        total: 0,
    }
}

/// A log after one more line.
pub open spec fn recorded(log: LogState, line: Line) -> LogState {
    LogState {
        lines: if log.lines.len() == log.capacity && log.lines.len() > 0 {
            log.lines.drop_first().push(line)
        } else {
            log.lines.push(line)
        },
        total: if log.total == u64::MAX {
            log.total
        } else {
            (log.total + 1) as u64
        },
        ..log
    }
}

/// A log after many lines.
pub open spec fn recorded_all(log: LogState, lines: Seq<Line>) -> LogState
    decreases lines.len(),
{
    if lines.len() == 0 {
        log
    } else {
        recorded(recorded_all(log, lines.drop_last()), lines.last())
    }
}

/// How many lines were dropped.
pub open spec fn dropped_from(log: LogState) -> int {
    if log.total >= log.lines.len() {
        log.total - log.lines.len()
    } else {
        0
    }
}

/// The last `n` lines, or all of them.
pub open spec fn last_lines(lines: Seq<Line>, n: nat) -> Seq<Line> {
    if lines.len() <= n {
        lines
    } else {
        lines.skip(lines.len() - n)
    }
}

/// However much a worker prints, a log holds its most recent lines, at most as many
/// as its capacity, and knows how many there were and how many it dropped.
pub proof fn the_most_recent_lines_are_kept(capacity: usize, lines: Seq<Line>)
    requires
        lines.len() <= u64::MAX,
    ensures
        ({
            let log = recorded_all(empty_log(capacity), lines);
            &&& log.capacity == empty_log(capacity).capacity
            &&& log.lines == last_lines(lines, log.capacity)
            &&& log.lines.len() <= log.capacity
            &&& log.total == lines.len()
            &&& dropped_from(log) == lines.len() - log.lines.len()
        }),
    decreases lines.len(),
{
    if lines.len() == 0 {
        assert(last_lines(lines, empty_log(capacity).capacity) =~= Seq::empty());
    } else {
        let before = lines.drop_last();
        the_most_recent_lines_are_kept(capacity, before);
        let log = recorded_all(empty_log(capacity), lines);
        assert(log.lines =~= last_lines(lines, log.capacity));
    }
}

/// A log that was given fewer lines than it retains holds them all, one that was given
/// more holds the last ones, and it holds at least one line however small it was asked
/// to be: the line at each place is the one that was recorded so far from the end.
pub proof fn each_line_stands_in_its_place(capacity: usize, lines: Seq<Line>, i: int)
    requires
        lines.len() <= u64::MAX,
    ensures
        ({
            let log = recorded_all(empty_log(capacity), lines);
            let room: int = if capacity == 0 {
                1
            } else {
                capacity as int
            };
            &&& lines.len() <= room ==> log.lines == lines
            &&& lines.len() > room ==> log.lines.len() == room
            &&& 0 <= i < log.lines.len() ==> log.lines[log.lines.len() - 1 - i]
                == lines[lines.len() - 1 - i]
        }),
{
    the_most_recent_lines_are_kept(capacity, lines);
}

/// The lines of one stream, in order.
pub open spec fn from_stream(lines: Seq<Line>, stream: LogStream) -> Seq<Line>
    decreases lines.len(),
{
    if lines.len() == 0 {
        Seq::empty()
    } else {
        let before = from_stream(lines.drop_last(), stream);
        if lines.last().stream == stream {
            before.push(lines.last())
        } else {
            before
        }
    }
}

/// The lines as text, one per row.
pub open spec fn rows(lines: Seq<Line>) -> Seq<char>
    decreases lines.len(),
{
    if lines.len() == 0 {
        Seq::empty()
    } else {
        (rows(lines.drop_last()) + line_text(lines.last())).push('\n')
    }
}

/// The lines of a stream are all those that were printed on it and no others, in order.
pub proof fn a_stream_has_its_own_lines(lines: Seq<Line>, stream: LogStream)
    ensures
        from_stream(lines, stream) == lines.filter(|line: Line| line.stream == stream),
    decreases lines.len(),
{
    reveal(Seq::filter);
    if lines.len() > 0 {
        a_stream_has_its_own_lines(lines.drop_last(), stream);
    }
}

/// A report shows every line that was kept, with its stream before it and an end of a
/// line behind it, and says how many lines were dropped where any were.
pub proof fn a_report_shows_every_line(log: LogState)
    ensures
        ({
            let shown = log.lines.map_values(
                |line: Line|
                    "["@ + (if line.stream is Stdout {
                        "stdout"@
                    } else {
                        "stderr"@
                    }) + "] "@ + line.text + seq!['\n'],
            ).flatten();
            if log.total > log.lines.len() {
                exists|n: Seq<char>|
                    reads_as(n, log.total - log.lines.len()) && rendered(log)
                        == #[trigger] ("... "@ + n + " earlier line(s) dropped ...\n"@ + shown)
            } else {
                rendered(log) == shown
            }
        }),
{
    rows_are_lines(log.lines);
    if log.total > log.lines.len() {
        let n = decimal(dropped_from(log) as nat);
        a_number_reads_back_from_its_decimal(dropped_from(log) as nat);
        assert(reads_as(n, log.total - log.lines.len()));
        assert(rendered(log) == "... "@ + n + " earlier line(s) dropped ...\n"@ + rows(log.lines));
    }
}

proof fn rows_are_lines(lines: Seq<Line>)
    ensures
        rows(lines) == lines.map_values(
            |line: Line|
                "["@ + (if line.stream is Stdout {
                    "stdout"@
                } else {
                    "stderr"@
                }) + "] "@ + line.text + seq!['\n'],
        ).flatten(),
    decreases lines.len(),
{
    let f = |line: Line|
        "["@ + (if line.stream is Stdout {
            "stdout"@
        } else {
            "stderr"@
        }) + "] "@ + line.text + seq!['\n'];
    if lines.len() == 0 {
        assert(lines.map_values(f) =~= Seq::empty());
    } else {
        let front = lines.drop_last();
        rows_are_lines(front);
        assert(lines.map_values(f) =~= front.map_values(f).push(f(lines.last())));
        assert(lines.map_values(f).flatten() =~= front.map_values(f).flatten() + f(lines.last()))
            by {
            broadcast use Seq::lemma_flatten_push;

        }
        assert(rows(lines) =~= rows(front) + f(lines.last()));
    }
}

/// A log as a failure report shows it.
pub open spec fn rendered(log: LogState) -> Seq<char> {
    if dropped_from(log) > 0 {
        "... "@ + decimal(dropped_from(log) as nat) + " earlier line(s) dropped ...\n"@ + rows(
            log.lines,
        )
    } else {
        rows(log.lines)
    }
}

/// A fixed-capacity record of a worker's most recent output.
#[derive(Debug)]
pub struct WorkerLog {
    capacity: usize,
    lines: VecDeque<LogLine>,
    total: u64,
}

impl View for WorkerLog {
    type V = LogState;

    closed spec fn view(&self) -> LogState {
        LogState {
            capacity: self.capacity as nat,
            lines: lines_view(self.lines@),
            total: self.total,
        }
    }
}

impl WorkerLog {
    /// A log retaining at most `capacity` lines, and at least one.
    pub fn with_capacity(capacity: usize) -> (log: Self)
        ensures
            log@ == empty_log(capacity),
    {
        let capacity: usize = if capacity == 0 {
            1
        } else {
            capacity
        };
        let log = WorkerLog { capacity, lines: VecDeque::new(), total: 0 };
        assert(log@.lines =~= Seq::empty());
        log
    }

    /// Records a line, dropping the oldest when the log is full.
    pub fn push(&mut self, line: LogLine)
        ensures
            final(self)@ == recorded(old(self)@, line@),
    {
        if self.lines.len() == self.capacity {
            let _ = self.lines.pop_front();
        }
        self.lines.push_back(line);
        self.total = self.total.saturating_add(1);
        assert(self@.lines =~= recorded(old(self)@, line@).lines);
    }

    /// The retained lines, oldest first.
    pub fn lines(&self) -> (lines: Vec<LogLine>)
        ensures
            lines_view(lines@) == self@.lines,
    {
        let mut lines: Vec<LogLine> = Vec::new();
        let mut i: usize = 0;
        while i < self.lines.len()
            invariant
                i <= self.lines@.len(),
                lines@.len() == i,
                forall|j: int| 0 <= j < i ==> (#[trigger] lines@[j])@ == self.lines@[j]@,
            decreases self.lines@.len() - i,
        {
            lines.push(self.lines[i].copy());
            i = i + 1;
        }
        assert(lines_view(lines@) =~= self@.lines);
        lines
    }

    /// Retained lines from one stream, oldest first.
    pub fn lines_from(&self, stream: LogStream) -> (lines: Vec<LogLine>)
        ensures
            lines_view(lines@) == from_stream(self@.lines, stream),
    {
        let mut lines: Vec<LogLine> = Vec::new();
        let mut i: usize = 0;
        assert(lines_view(lines@) =~= Seq::empty());
        while i < self.lines.len()
            invariant
                i <= self.lines@.len(),
                lines_view(lines@) == from_stream(self@.lines.take(i as int), stream),
            decreases self.lines@.len() - i,
        {
            proof {
                assert(self@.lines.take(i + 1).drop_last() =~= self@.lines.take(i as int));
            }
            if self.lines[i].stream == stream {
                let ghost before = lines_view(lines@);
                lines.push(self.lines[i].copy());
                assert(lines_view(lines@) =~= before.push(self@.lines[i as int]));
            }
            i = i + 1;
        }
        assert(self@.lines.take(i as int) =~= self@.lines);
        lines
    }

    /// How many lines were recorded in total, including any since dropped.
    pub fn total_recorded(&self) -> (total: u64)
        ensures
            total == self@.total,
    {
        self.total
    }

    /// How many lines were dropped because the buffer was full.
    pub fn dropped(&self) -> (n: u64)
        ensures
            n == dropped_from(self@),
    {
        self.total.saturating_sub(self.lines.len() as u64)
    }

    /// Renders the retained output for a failure report.
    pub fn render(&self) -> (out: String)
        ensures
            out@ == rendered(self@),
    {
        let mut out = String::new();
        let n: u64 = self.dropped();
        if n > 0 {
            out.append("... ");
            out.append(decimal_u64(n).as_str());
            out.append(" earlier line(s) dropped ...\n");
            assert(out@ =~= "... "@ + decimal(n as nat) + " earlier line(s) dropped ...\n"@);
        }
        let ghost head = out@;
        let mut i: usize = 0;
        assert(head + Seq::<char>::empty() =~= head);
        while i < self.lines.len()
            invariant
                i <= self.lines@.len(),
                out@ == head + rows(self@.lines.take(i as int)),
            decreases self.lines@.len() - i,
        {
            let ghost before = out@;
            out.append(self.lines[i].to_string().as_str());
            out.push('\n');
            proof {
                assert(self@.lines.take(i + 1).drop_last() =~= self@.lines.take(i as int));
                assert(out@ =~= head + rows(self@.lines.take(i + 1)));
            }
            i = i + 1;
        }
        assert(self@.lines.take(i as int) =~= self@.lines);
        assert(n == 0 ==> head + rows(self@.lines) =~= rows(self@.lines));
        out
    }
}

/// A handle to a worker's captured output.
#[derive(Debug)]
pub struct LogHandle {
    inner: WorkerLog,
}

impl View for LogHandle {
    type V = LogState;

    closed spec fn view(&self) -> LogState {
        self.inner@
    }
}

impl LogHandle {
    pub fn new(capacity: usize) -> (log: Self)
        ensures
            log@ == empty_log(capacity),
    {
        LogHandle { inner: WorkerLog::with_capacity(capacity) }
    }

    /// Records a line that was captured at `at`.
    pub fn record(&mut self, stream: LogStream, at: u64, text: String)
        ensures
            final(self)@ == recorded(old(self)@, (Line { stream, at, text: text@ })),
    {
        let line = LogLine { stream, at, text };
        self.inner.push(line);
    }

    /// Retained lines, oldest first.
    pub fn lines(&self) -> (lines: Vec<LogLine>)
        ensures
            lines_view(lines@) == self@.lines,
    {
        self.inner.lines()
    }

    /// Retained lines from one stream.
    pub fn lines_from(&self, stream: LogStream) -> (lines: Vec<LogLine>)
        ensures
            lines_view(lines@) == from_stream(self@.lines, stream),
    {
        self.inner.lines_from(stream)
    }

    /// Renders the retained output for a failure report.
    pub fn render(&self) -> (out: String)
        ensures
            out@ == rendered(self@),
    {
        self.inner.render()
    }

    /// How many lines were dropped because the buffer was full.
    pub fn dropped(&self) -> (n: u64)
        ensures
            n == dropped_from(self@),
    {
        self.inner.dropped()
    }
}

impl Default for LogHandle {
    fn default() -> (log: LogHandle)
        ensures
            log@ == empty_log(DEFAULT_CAPTURE_LINES),
    {
        LogHandle::new(DEFAULT_CAPTURE_LINES)
    }
}

} // verus!
