//! Commands as an explicit binary with its arguments, and runs of them that stream their output
//! into the log.
use crate::terminal::{EntryView, FrameView, Term, TermView};
use crate::text;
use vstd::prelude::*;
use vstd::string::*;

verus! {

/// A binary and its arguments, handed over one by one. There is no shell in between.
#[derive(Debug)]
pub struct Invocation {
    pub bin: String,
    pub args: Vec<String>,
}

/// A binary and its arguments as a mathematical value.
#[verifier::ext_equal]
pub struct InvocationView {
    pub bin: Seq<char>,
    pub args: Seq<Seq<char>>,
}

impl InvocationView {
    /// A binary without arguments.
    pub open spec fn of(bin: Seq<char>) -> InvocationView {
        InvocationView { bin, args: Seq::empty() }
    }

    /// One argument more.
    pub open spec fn arg(self, arg: Seq<char>) -> InvocationView {
        InvocationView { args: self.args.push(arg), ..self }
    }

    /// More arguments.
    pub open spec fn args(self, more: Seq<Seq<char>>) -> InvocationView {
        InvocationView { args: self.args + more, ..self }
    }

    /// The line that announces the command in the log.
    pub open spec fn announced(self) -> Seq<char> {
        "$ "@ + self.bin + " "@ + text::joined(self.args, " "@)
    }
}

impl View for Invocation {
    type V = InvocationView;

    open spec fn view(&self) -> InvocationView {
        InvocationView { bin: self.bin@, args: self.args.deep_view() }
    }
}

impl Invocation {
    /// A binary without arguments.
    pub fn new(bin: &str) -> (r: Invocation)
        ensures
            r@ == InvocationView::of(bin@),
    {
        let r = Invocation { bin: bin.to_owned(), args: Vec::new() };
        assert(r@ == InvocationView::of(bin@));
        r
    }

    /// One argument more.
    pub fn arg(self, arg: &str) -> (r: Invocation)
        ensures
            r@ == self@.arg(arg@),
    {
        let mut r = self;
        r.args.push(arg.to_owned());
        assert(r@ == self@.arg(arg@));
        r
    }

    /// More arguments.
    pub fn args(self, more: &Vec<String>) -> (r: Invocation)
        ensures
            r@ == self@.args(more.deep_view()),
    {
        let ghost extra = more.deep_view();
        let mut r = self;
        assert(extra.take(0) == Seq::<Seq<char>>::empty());
        assert(r@ == self@.args(extra.take(0)));
        for i in 0..more.len()
            invariant
                extra == more.deep_view(),
                r@ == self@.args(extra.take(i as int)),
        {
            let word = more[i].clone();
            let ghost before = r@;
            r.args.push(word);
            proof {
                assert(word@ == extra[i as int]);
                assert(extra.take(i + 1) == extra.take(i as int).push(extra[i as int]));
                assert(r@.args == before.args.push(word@));
                assert(r@ == self@.args(extra.take(i + 1)));
            }
        }
        assert(extra.take(more.len() as int) == extra);
        r
    }

    /// The line that announces the command in the log.
    pub fn announcement(&self) -> (r: String)
        ensures
            r@ == self@.announced(),
    {
        text::concat3("$ ", self.bin.as_str(), " ").concat(text::join(&self.args, " ").as_str())
    }
}

/// How a command ended: `None` for success, else what went wrong.
pub open spec fn failure(r: Result<(), String>) -> Option<Seq<char>> {
    match r {
        Ok(_) => None,
        Err(e) => Some(e@),
    }
}

/// What a command that ran to its end left behind.
#[derive(Debug)]
pub struct Captured {
    /// Whether its exit status says success.
    pub success: bool,
    /// What it wrote to its standard output.
    pub stdout: Vec<u8>,
}

/// What a command that ran to its end left behind, as a mathematical value.
pub struct CapturedView {
    pub success: bool,
    pub stdout: Seq<u8>,
}

impl View for Captured {
    type V = CapturedView;

    open spec fn view(&self) -> CapturedView {
        CapturedView { success: self.success, stdout: self.stdout@ }
    }
}

/// The result of a capture, where the command could be run at all.
pub open spec fn capture(out: Option<Captured>) -> Option<CapturedView> {
    match out {
        Some(c) => Some(c@),
        None => None,
    }
}

/// A captured command says that a binary exists if it succeeds.
pub open spec fn found_by(out: Option<CapturedView>) -> bool {
    out matches Some(c) && c.success
}

/// The command that tells whether a binary exists on the search path.
pub fn which(bin: &str) -> (r: Invocation)
    ensures
        r@ == InvocationView::of("which"@).arg(bin@),
{
    Invocation::new("which").arg(bin)
}

/// Whether the binary exists, given what `which` left behind; it counts as missing if `which`
/// could not be run.
pub fn command_exists(out: &Option<Captured>) -> (r: bool)
    ensures
        r == found_by(capture(*out)),
{
    match out {
        Some(c) => c.success,
        None => false,
    }
}

/// What has to happen next in a streamed run.
#[derive(Clone, Copy, Debug, PartialEq, Eq, Structural)]
pub enum StreamPhase {
    /// Start the process.
    Spawn,
    /// Read the next line of its standard output.
    Stdout,
    /// Read the next line of its standard error.
    Stderr,
    /// Wait for it to end.
    Wait,
}

/// What happened in a streamed run.
pub enum StreamEvent {
    /// The process could not be started, for the given reason.
    SpawnFailed(String),
    /// The process was started.
    Spawned,
    /// A line was read.
    Line(String),
    /// There is no further line.
    EndOfStream,
    /// The process ended; `status` is its exit status in words.
    Exited { success: bool, status: String },
    /// Its end could not be awaited, for the given reason.
    WaitFailed(String),
}

/// What happened in a streamed run, as a mathematical value.
pub enum StreamEventView {
    SpawnFailed(Seq<char>),
    Spawned,
    Line(Seq<char>),
    EndOfStream,
    Exited { success: bool, status: Seq<char> },
    WaitFailed(Seq<char>),
}

impl View for StreamEvent {
    type V = StreamEventView;

    open spec fn view(&self) -> StreamEventView {
        match *self {
            StreamEvent::SpawnFailed(e) => StreamEventView::SpawnFailed(e@),
            StreamEvent::Spawned => StreamEventView::Spawned,
            StreamEvent::Line(l) => StreamEventView::Line(l@),
            StreamEvent::EndOfStream => StreamEventView::EndOfStream,
            StreamEvent::Exited { success, status } => StreamEventView::Exited {
                success,
                status: status@,
            },
            StreamEvent::WaitFailed(e) => StreamEventView::WaitFailed(e@),
        }
    }
}

/// A run of a command that streams its output into the log.
pub struct StreamRun {
    bin: String,
    percent: u8,
    phase: StreamPhase,
}

/// A streamed run as a mathematical value.
pub struct StreamView {
    pub bin: Seq<char>,
    pub percent: u8,
    pub phase: StreamPhase,
}

impl View for StreamRun {
    type V = StreamView;

    closed spec fn view(&self) -> StreamView {
        StreamView { bin: self.bin@, percent: self.percent, phase: self.phase }
    }
}

/// A streamed run goes on or has ended.
pub enum StreamStep {
    Continue(StreamRun),
    Done(Result<(), String>),
}

/// A streamed run that goes on or has ended, as a mathematical value.
pub enum StreamStepView {
    Continue(StreamView),
    /// `None` for success, else what went wrong.
    Done(Option<Seq<char>>),
}

impl View for StreamStep {
    type V = StreamStepView;

    open spec fn view(&self) -> StreamStepView {
        match *self {
            StreamStep::Continue(run) => StreamStepView::Continue(run@),
            StreamStep::Done(r) => StreamStepView::Done(failure(r)),
        }
    }
}

/// A line of standard output goes into the log, trimmed.
pub open spec fn stdout_logged(
    t: TermView,
    percent: u8,
    line: Seq<char>,
) -> TermView {
    t.out(text::trimmed(line)).push(percent)
}

/// A line of standard error goes into the log, trimmed; as a failure, if it speaks of an error in
/// any case of letters.
pub open spec fn stderr_logged(
    t: TermView,
    percent: u8,
    line: Seq<char>,
) -> TermView {
    let shown = text::trimmed(line);
    if text::occurs(text::lowercase(shown), "error"@) {
        t.err(shown).push(percent)
    } else {
        t.out(shown).push(percent)
    }
}

/// What an event leads to: the run goes on or ends, and the log may grow. An event that does not
/// belong to the phase changes nothing.
pub open spec fn stream_next(
    s: StreamView,
    event: StreamEventView,
    t: TermView,
) -> (StreamStepView, TermView) {
    match (s.phase, event) {
        (StreamPhase::Spawn, StreamEventView::SpawnFailed(e)) => (
            StreamStepView::Done(Some("Failed to start `"@ + s.bin + "`: "@ + e)),
            t,
        ),
        (StreamPhase::Spawn, StreamEventView::Spawned) => (
            StreamStepView::Continue(StreamView { phase: StreamPhase::Stdout, ..s }),
            t,
        ),
        (StreamPhase::Stdout, StreamEventView::Line(line)) => (
            StreamStepView::Continue(s),
            stdout_logged(t, s.percent, line),
        ),
        (StreamPhase::Stdout, StreamEventView::EndOfStream) => (
            StreamStepView::Continue(StreamView { phase: StreamPhase::Stderr, ..s }),
            t,
        ),
        (StreamPhase::Stderr, StreamEventView::Line(line)) => (
            StreamStepView::Continue(s),
            stderr_logged(t, s.percent, line),
        ),
        (StreamPhase::Stderr, StreamEventView::EndOfStream) => (
            StreamStepView::Continue(StreamView { phase: StreamPhase::Wait, ..s }),
            t,
        ),
        (StreamPhase::Wait, StreamEventView::Exited { success, status }) => (
            StreamStepView::Done(
                if success {
                    None
                } else {
                    Some("`"@ + s.bin + "` exited with status: "@ + status)
                },
            ),
            t,
        ),
        (StreamPhase::Wait, StreamEventView::WaitFailed(e)) => (StreamStepView::Done(Some(e)), t),
        _ => (StreamStepView::Continue(s), t),
    }
}

/// Begins a run of `command` that streams its output into `term`: announces the command and
/// shows it with the progress bar at `percent` percent.
pub fn run_streamed(command: &Invocation, percent: u8, term: &mut Term) -> (r: StreamRun)
    ensures
        r@ == (StreamView { bin: command@.bin, percent, phase: StreamPhase::Spawn }),
        final(term)@ == old(term)@.cmd(command@.announced()).push(percent),
{
    term.cmd(command.announcement().as_str());
    term.push_to_ui(percent);
    StreamRun { bin: command.bin.clone(), percent, phase: StreamPhase::Spawn }
}

impl StreamRun {
    /// What has to happen next.
    pub fn phase(&self) -> (r: StreamPhase)
        ensures
            r == self@.phase,
    {
        self.phase
    }

    /// Takes note of what happened.
    pub fn step(self, event: StreamEvent, term: &mut Term) -> (r: StreamStep)
        ensures
            (r@, final(term)@) == stream_next(self@, event@, old(term)@),
    {
        let StreamRun { bin, percent, phase } = self;
        match (phase, event) {
            (StreamPhase::Spawn, StreamEvent::SpawnFailed(e)) => {
                StreamStep::Done(
                    Err(
                        text::concat3("Failed to start `", bin.as_str(), "`: ").concat(e.as_str()),
                    ),
                )
            },
            (StreamPhase::Spawn, StreamEvent::Spawned) => {
                StreamStep::Continue(StreamRun { bin, percent, phase: StreamPhase::Stdout })
            },
            (StreamPhase::Stdout, StreamEvent::Line(line)) => {
                let shown = text::trim(line.as_str());
                term.out(shown.as_str());
                term.push_to_ui(percent);
                StreamStep::Continue(StreamRun { bin, percent, phase })
            },
            (StreamPhase::Stdout, StreamEvent::EndOfStream) => {
                StreamStep::Continue(StreamRun { bin, percent, phase: StreamPhase::Stderr })
            },
            (StreamPhase::Stderr, StreamEvent::Line(line)) => {
                let shown = text::trim(line.as_str());
                if text::contains(shown.as_str().to_lowercase().as_str(), "error") {
                    term.err(shown.as_str());
                } else {
                    term.out(shown.as_str());
                }
                term.push_to_ui(percent);
                StreamStep::Continue(StreamRun { bin, percent, phase })
            },
            (StreamPhase::Stderr, StreamEvent::EndOfStream) => {
                StreamStep::Continue(StreamRun { bin, percent, phase: StreamPhase::Wait })
            },
            (StreamPhase::Wait, StreamEvent::Exited { success, status }) => {
                if success {
                    StreamStep::Done(Ok(()))
                } else {
                    StreamStep::Done(
                        Err(
                            text::concat3("`", bin.as_str(), "` exited with status: ").concat(
                                status.as_str(),
                            ),
                        ),
                    )
                }
            },
            (StreamPhase::Wait, StreamEvent::WaitFailed(e)) => StreamStep::Done(Err(e)),
            _ => StreamStep::Continue(StreamRun { bin, percent, phase }),
        }
    }
}

/// Where a run stands after a sequence of events, and the log by then. What comes after the end of
/// the run is not looked at.
pub open spec fn stream_after(s: StreamView, events: Seq<StreamEventView>, t: TermView) -> (
    StreamStepView,
    TermView,
)
    decreases events.len(),
{
    if events.len() == 0 {
        (StreamStepView::Continue(s), t)
    } else {
        let (step, logged) = stream_next(s, events.first(), t);
        match step {
            StreamStepView::Continue(next) => stream_after(next, events.drop_first(), logged),
            StreamStepView::Done(_) => (step, logged),
        }
    }
}

/// The events of lines that are read one after another until there are no more.
pub open spec fn lines_read(lines: Seq<Seq<char>>) -> Seq<StreamEventView> {
    lines.map_values(|line: Seq<char>| StreamEventView::Line(line)).push(
        StreamEventView::EndOfStream,
    )
}

/// The log after all lines of standard output.
pub open spec fn all_stdout_logged(t: TermView, percent: u8, lines: Seq<Seq<char>>) -> TermView
    decreases lines.len(),
{
    if lines.len() == 0 {
        t
    } else {
        stdout_logged(all_stdout_logged(t, percent, lines.drop_last()), percent, lines.last())
    }
}

/// The log after all lines of standard error.
pub open spec fn all_stderr_logged(t: TermView, percent: u8, lines: Seq<Seq<char>>) -> TermView
    decreases lines.len(),
{
    if lines.len() == 0 {
        t
    } else {
        stderr_logged(all_stderr_logged(t, percent, lines.drop_last()), percent, lines.last())
    }
}

/// A run can be followed in two parts.
proof fn lemma_stream_in_parts(
    s: StreamView,
    first: Seq<StreamEventView>,
    second: Seq<StreamEventView>,
    t: TermView,
)
    ensures
        stream_after(s, first + second, t) == match stream_after(s, first, t) {
            (StreamStepView::Continue(mid), logged) => stream_after(mid, second, logged),
            (step, logged) => (step, logged),
        },
    decreases first.len(),
{
    if first.len() == 0 {
        assert(first + second == second);
    } else {
        assert((first + second).first() == first.first());
        assert((first + second).drop_first() == first.drop_first() + second);
        let (step, logged) = stream_next(s, first.first(), t);
        if let StreamStepView::Continue(next) = step {
            lemma_stream_in_parts(next, first.drop_first(), second, logged);
        }
    }
}

/// One event more.
proof fn lemma_stream_one_more(
    s: StreamView,
    events: Seq<StreamEventView>,
    event: StreamEventView,
    t: TermView,
)
    ensures
        stream_after(s, events.push(event), t) == match stream_after(s, events, t) {
            (StreamStepView::Continue(mid), logged) => stream_next(mid, event, logged),
            (step, logged) => (step, logged),
        },
{
    lemma_stream_in_parts(s, events, seq![event], t);
    assert(events + seq![event] == events.push(event));
    if let (StreamStepView::Continue(mid), logged) = stream_after(s, events, t) {
        assert(seq![event].first() == event);
        assert(seq![event].drop_first() == Seq::<StreamEventView>::empty());
        let (step, after) = stream_next(mid, event, logged);
        if let StreamStepView::Continue(next) = step {
            assert(stream_after(next, Seq::<StreamEventView>::empty(), after) == (step, after));
        }
    }
}

/// Reading lines of one of the two streams logs each of them, in order.
proof fn lemma_lines_logged(s: StreamView, lines: Seq<Seq<char>>, t: TermView)
    requires
        s.phase == StreamPhase::Stdout || s.phase == StreamPhase::Stderr,
    ensures
        stream_after(s, lines.map_values(|line: Seq<char>| StreamEventView::Line(line)), t) == (
            StreamStepView::Continue(s),
            if s.phase == StreamPhase::Stdout {
                all_stdout_logged(t, s.percent, lines)
            } else {
                all_stderr_logged(t, s.percent, lines)
            },
        ),
    decreases lines.len(),
{
    let as_event = |line: Seq<char>| StreamEventView::Line(line);
    if lines.len() > 0 {
        lemma_lines_logged(s, lines.drop_last(), t);
        assert(lines.map_values(as_event) == lines.drop_last().map_values(as_event).push(
            StreamEventView::Line(lines.last()),
        ));
        lemma_stream_one_more(
            s,
            lines.drop_last().map_values(as_event),
            StreamEventView::Line(lines.last()),
            t,
        );
    } else {
        assert(lines.map_values(as_event) == Seq::<StreamEventView>::empty());
    }
}

/// A run that starts, prints `out` and then `err`, and ends: the log holds every line, standard
/// output first, and the run succeeds exactly if the exit status says so.
pub proof fn streamed_run_logs_everything(
    s: StreamView,
    out: Seq<Seq<char>>,
    err: Seq<Seq<char>>,
    success: bool,
    status: Seq<char>,
    t: TermView,
)
    requires
        s.phase == StreamPhase::Spawn,
    ensures
        stream_after(
            s,
            seq![StreamEventView::Spawned] + lines_read(out) + lines_read(err)
                + seq![StreamEventView::Exited { success, status }],
            t,
        ) == (
            StreamStepView::Done(
                if success {
                    None
                } else {
                    Some("`"@ + s.bin + "` exited with status: "@ + status)
                },
            ),
            all_stderr_logged(all_stdout_logged(t, s.percent, out), s.percent, err),
        ),
{
    let as_event = |line: Seq<char>| StreamEventView::Line(line);
    let exited = StreamEventView::Exited { success, status };
    let start = seq![StreamEventView::Spawned];
    let none = Seq::<StreamEventView>::empty();
    let s1 = StreamView { phase: StreamPhase::Stdout, ..s };
    let s2 = StreamView { phase: StreamPhase::Stderr, ..s };
    let s3 = StreamView { phase: StreamPhase::Wait, ..s };
    let t1 = all_stdout_logged(t, s.percent, out);
    let t2 = all_stderr_logged(t1, s.percent, err);
    assert(none.push(StreamEventView::Spawned) == start);
    lemma_stream_one_more(s, none, StreamEventView::Spawned, t);
    lemma_lines_logged(s1, out, t);
    lemma_stream_one_more(s1, out.map_values(as_event), StreamEventView::EndOfStream, t);
    lemma_lines_logged(s2, err, t1);
    lemma_stream_one_more(s2, err.map_values(as_event), StreamEventView::EndOfStream, t1);
    lemma_stream_in_parts(s, start, lines_read(out), t);
    lemma_stream_in_parts(s, start + lines_read(out), lines_read(err), t);
    let upto = start + lines_read(out) + lines_read(err);
    assert(stream_after(s, upto, t) == (StreamStepView::Continue(s3), t2));
    lemma_stream_one_more(s, upto, exited, t);
    assert(upto + seq![exited] == upto.push(exited));
}

/// A run never takes anything back from the log.
pub proof fn streamed_run_only_adds(s: StreamView, events: Seq<StreamEventView>, t: TermView)
    ensures
        t.grew_to(stream_after(s, events, t).1),
    decreases events.len(),
{
    if events.len() > 0 {
        let (step, logged) = stream_next(s, events.first(), t);
        assert(t.grew_to(logged));
        if let StreamStepView::Continue(next) = step {
            streamed_run_only_adds(next, events.drop_first(), logged);
            crate::terminal::growth_is_transitive(
                t,
                logged,
                stream_after(next, events.drop_first(), logged).1,
            );
        }
    }
}

/// A command holds the binary and the arguments as they were given, in order, and is announced with
/// a dollar sign and blanks between them.
pub proof fn arguments_are_kept_in_order(
    bin: Seq<char>,
    c: InvocationView,
    arg: Seq<char>,
    more: Seq<Seq<char>>,
)
    ensures
        InvocationView::of(bin) == (InvocationView { bin, args: Seq::empty() }),
        c.arg(arg) == (InvocationView { bin: c.bin, args: c.args.push(arg) }),
        c.args(more) == (InvocationView { bin: c.bin, args: c.args + more }),
        c.announced() == "$ "@ + c.bin + " "@ + text::joined(c.args, " "@),
{
}

/// A binary counts as found exactly if the command that looks for it succeeds.
pub proof fn a_binary_is_found_by_success(c: CapturedView)
    ensures
        found_by(Some(c)) == c.success,
        !found_by(None),
{
}

proof fn lemma_stdout_entries(t: TermView, percent: u8, lines: Seq<Seq<char>>)
    ensures
        all_stdout_logged(t, percent, lines).entries == t.entries + lines.map_values(
            |line: Seq<char>| EntryView { text: text::trimmed(line), level: "output"@ },
        ),
        all_stdout_logged(t, percent, lines).frames == t.frames + Seq::new(
            lines.len(),
            |i: int| FrameView::Lines { shown: (t.entries.len() + i + 1) as nat, percent },
        ),
    decreases lines.len(),
{
    if lines.len() > 0 {
        lemma_stdout_entries(t, percent, lines.drop_last());
        assert(lines == lines.drop_last().push(lines.last()));
    }
}

proof fn lemma_stderr_entries(t: TermView, percent: u8, lines: Seq<Seq<char>>)
    ensures
        all_stderr_logged(t, percent, lines).entries == t.entries + lines.map_values(
            |line: Seq<char>| EntryView {
                text: text::trimmed(line),
                level: if text::occurs(text::lowercase(text::trimmed(line)), "error"@) {
                    "error"@
                } else {
                    "output"@
                },
            },
        ),
        all_stderr_logged(t, percent, lines).frames == t.frames + Seq::new(
            lines.len(),
            |i: int| FrameView::Lines { shown: (t.entries.len() + i + 1) as nat, percent },
        ),
    decreases lines.len(),
{
    if lines.len() > 0 {
        lemma_stderr_entries(t, percent, lines.drop_last());
        assert(lines == lines.drop_last().push(lines.last()));
    }
}

/// A run logs one line for each line that was printed, however many and however long, without the
/// white space at its ends: first those of standard output, then those of standard error, of which
/// the ones that speak of an error count as failures. After each line the log is shown as it stands.
pub proof fn every_printed_line_is_logged(
    s: StreamView,
    out: Seq<Seq<char>>,
    err: Seq<Seq<char>>,
    success: bool,
    status: Seq<char>,
    t: TermView,
)
    requires
        s.phase == StreamPhase::Spawn,
    ensures
        ({
            let line = |l: Seq<char>| StreamEventView::Line(l);
            let (step, end) = stream_after(
                s,
                seq![StreamEventView::Spawned] + out.map_values(line).push(
                    StreamEventView::EndOfStream,
                ) + err.map_values(line).push(StreamEventView::EndOfStream)
                    + seq![StreamEventView::Exited { success, status }],
                t,
            );
            &&& end.entries == t.entries + out.map_values(
                |l: Seq<char>| EntryView { text: text::trimmed(l), level: "output"@ },
            ) + err.map_values(
                |l: Seq<char>| EntryView {
                    text: text::trimmed(l),
                    level: if text::occurs(text::lowercase(text::trimmed(l)), "error"@) {
                        "error"@
                    } else {
                        "output"@
                    },
                },
            )
            &&& end.frames == t.frames + Seq::new(
                out.len() + err.len(),
                |i: int| FrameView::Lines {
                    shown: (t.entries.len() + i + 1) as nat,
                    percent: s.percent,
                },
            )
            &&& step == StreamStepView::Done(
                if success {
                    None
                } else {
                    Some("`"@ + s.bin + "` exited with status: "@ + status)
                },
            )
        }),
{
    let mid = all_stdout_logged(t, s.percent, out);
    streamed_run_logs_everything(s, out, err, success, status, t);
    lemma_stdout_entries(t, s.percent, out);
    lemma_stderr_entries(mid, s.percent, err);
    let end = all_stderr_logged(mid, s.percent, err);
    assert(end.frames == t.frames + Seq::new(
        out.len() + err.len(),
        |i: int| FrameView::Lines { shown: (t.entries.len() + i + 1) as nat, percent: s.percent },
    ));
}

/// A process that cannot be started, or whose end cannot be awaited, ends the run with the reason as
/// it was given, and nothing is logged.
pub proof fn failures_carry_their_reason(s: StreamView, reason: Seq<char>, t: TermView)
    ensures
        s.phase == StreamPhase::Spawn ==> stream_next(s, StreamEventView::SpawnFailed(reason), t)
            == (
            StreamStepView::Done(Some("Failed to start `"@ + s.bin + "`: "@ + reason)),
            t,
        ),
        s.phase == StreamPhase::Wait ==> stream_next(s, StreamEventView::WaitFailed(reason), t) == (
            StreamStepView::Done(Some(reason)),
            t,
        ),
{
}

/// What a command left behind, how it ended and what happened in its course is seen as it is, all of
/// it.
pub proof fn what_commands_do_is_seen_as_it_is(
    c: Captured,
    i: Invocation,
    s: String,
    success: bool,
)
    ensures
        capture(Some(c)) == Some(CapturedView { success: c.success, stdout: c.stdout@ }),
        capture(None) is None,
        failure(Err(s)) == Some(s@),
        failure(Ok(())) is None,
        i@ == (InvocationView { bin: i.bin@, args: i.args.deep_view() }),
        StreamEvent::Line(s)@ == StreamEventView::Line(s@),
        StreamEvent::SpawnFailed(s)@ == StreamEventView::SpawnFailed(s@),
        StreamEvent::WaitFailed(s)@ == StreamEventView::WaitFailed(s@),
        (StreamEvent::Exited { success, status: s })@ == (StreamEventView::Exited {
            success,
            status: s@,
        }),
        StreamEvent::Spawned@ == StreamEventView::Spawned,
        StreamEvent::EndOfStream@ == StreamEventView::EndOfStream,
{
}

} // verus!
