//! The terminal log of an operation: what it printed, and what was shown of it when.
use vstd::prelude::*;

verus! {

/// A single line of the log.
#[derive(Clone, Debug)]
pub struct LogEntry {
    pub text: String,
    /// One of "info", "success", "error", "cmd" and "output".
    pub level: String,
}

/// A line of the log as a mathematical value.
pub struct EntryView {
    pub text: Seq<char>,
    pub level: Seq<char>,
}

impl View for LogEntry {
    type V = EntryView;

    open spec fn view(&self) -> EntryView {
        EntryView { text: self.text@, level: self.level@ }
    }
}

/// A request to bring the window up to date.
#[derive(Clone, Copy, Debug, PartialEq, Eq, Structural)]
pub enum Frame {
    /// Show the first `shown` lines and move the progress bar to `percent` percent.
    Lines { shown: usize, percent: u8 },
    /// Move the progress bar to `percent` percent and leave the lines alone.
    Progress { percent: u8 },
}

/// A request to bring the window up to date, as a mathematical value.
pub enum FrameView {
    Lines { shown: nat, percent: u8 },
    Progress { percent: u8 },
}

impl View for Frame {
    type V = FrameView;

    open spec fn view(&self) -> FrameView {
        match *self {
            Frame::Lines { shown, percent } => FrameView::Lines { shown: shown as nat, percent },
            Frame::Progress { percent } => FrameView::Progress { percent },
        }
    }
}

/// The log and the requests to show it, each in the order in which they came.
#[verifier::ext_equal]
pub struct TermView {
    pub entries: Seq<EntryView>,
    pub frames: Seq<FrameView>,
}

impl TermView {
    /// Nothing logged, nothing shown.
    pub open spec fn blank() -> TermView {
        TermView { entries: Seq::empty(), frames: Seq::empty() }
    }

    /// The log with one more line.
    pub open spec fn add(self, text: Seq<char>, level: Seq<char>) -> TermView {
        TermView { entries: self.entries.push(EntryView { text, level }), ..self }
    }

    pub open spec fn info(self, text: Seq<char>) -> TermView {
        self.add(text, "info"@)
    }

    pub open spec fn ok(self, text: Seq<char>) -> TermView {
        self.add(text, "success"@)
    }

    pub open spec fn err(self, text: Seq<char>) -> TermView {
        self.add(text, "error"@)
    }

    pub open spec fn cmd(self, text: Seq<char>) -> TermView {
        self.add(text, "cmd"@)
    }

    pub open spec fn out(self, text: Seq<char>) -> TermView {
        self.add(text, "output"@)
    }

    /// The log as it stands is to be shown, with the progress bar at `percent` percent.
    pub open spec fn push(self, percent: u8) -> TermView {
        TermView {
            frames: self.frames.push(FrameView::Lines { shown: self.entries.len(), percent }),
            ..self
        }
    }

    /// The progress bar is to move to `percent` percent.
    pub open spec fn nudge(self, percent: u8) -> TermView {
        TermView { frames: self.frames.push(FrameView::Progress { percent }), ..self }
    }

    /// No frame shows more lines than there are.
    pub open spec fn wf(self) -> bool {
        forall|i: int|
            0 <= i < self.frames.len() ==> (#[trigger] self.frames[i] matches FrameView::Lines {
                shown,
                ..
            } ==> shown <= self.entries.len())
    }

    /// The progress bar never goes beyond its end.
    pub open spec fn in_range(self) -> bool {
        forall|i: int|
            0 <= i < self.frames.len() ==> match #[trigger] self.frames[i] {
                FrameView::Lines { percent, .. } => percent <= 100,
                FrameView::Progress { percent } => percent <= 100,
            }
    }

    /// `later` is this log after more has happened: nothing was taken back.
    pub open spec fn grew_to(self, later: TermView) -> bool {
        self.entries.is_prefix_of(later.entries) && self.frames.is_prefix_of(later.frames)
    }
}

/// The log of one operation.
pub struct Term {
    entries: Vec<LogEntry>,
    frames: Vec<Frame>,
}

impl View for Term {
    type V = TermView;

    closed spec fn view(&self) -> TermView {
        TermView {
            entries: self.entries@.map_values(|e: LogEntry| e@),
            frames: self.frames@.map_values(|f: Frame| f@),
        }
    }
}

impl Term {
    /// An empty log.
    pub fn new() -> (r: Term)
        ensures
            r@ == TermView::blank(),
    {
        let r = Term { entries: Vec::new(), frames: Vec::new() };
        assert(r@ == TermView::blank());
        r
    }

    /// Logs one line.
    fn add(&mut self, text: &str, level: &str)
        ensures
            final(self)@ == old(self)@.add(text@, level@),
    {
        let ghost before = self@;
        self.entries.push(LogEntry { text: text.to_owned(), level: level.to_owned() });
        assert(self@ == before.add(text@, level@));
    }

    /// Logs what is being done.
    pub fn info(&mut self, t: &str)
        ensures
            final(self)@ == old(self)@.info(t@),
    {
        self.add(t, "info");
    }

    /// Logs a success.
    pub fn ok(&mut self, t: &str)
        ensures
            final(self)@ == old(self)@.ok(t@),
    {
        self.add(t, "success");
    }

    /// Logs a failure.
    pub fn err(&mut self, t: &str)
        ensures
            final(self)@ == old(self)@.err(t@),
    {
        self.add(t, "error");
    }

    /// Logs a command line.
    pub fn cmd(&mut self, t: &str)
        ensures
            final(self)@ == old(self)@.cmd(t@),
    {
        self.add(t, "cmd");
    }

    /// Logs a line that a command printed.
    pub fn out(&mut self, t: &str)
        ensures
            final(self)@ == old(self)@.out(t@),
    {
        self.add(t, "output");
    }

    /// Asks for the log as it stands to be shown, with the progress bar at `percent` percent.
    pub fn push_to_ui(&mut self, percent: u8)
        ensures
            final(self)@ == old(self)@.push(percent),
    {
        let ghost before = self@;
        self.frames.push(Frame::Lines { shown: self.entries.len(), percent });
        assert(self@ == before.push(percent));
    }

    /// Asks for the progress bar to move to `percent` percent.
    pub fn nudge(&mut self, percent: u8)
        ensures
            final(self)@ == old(self)@.nudge(percent),
    {
        let ghost before = self@;
        self.frames.push(Frame::Progress { percent });
        assert(self@ == before.nudge(percent));
    }

    /// A copy of all lines.
    pub fn snapshot(&self) -> (r: Vec<LogEntry>)
        ensures
            r@.map_values(|e: LogEntry| e@) == self@.entries,
    {
        let mut r: Vec<LogEntry> = Vec::new();
        for i in 0..self.entries.len()
            invariant
                r@.map_values(|e: LogEntry| e@) == self@.entries.take(i as int),
        {
            let e = &self.entries[i];
            let copy = LogEntry { text: e.text.clone(), level: e.level.clone() };
            let ghost before = r@;
            r.push(copy);
            proof {
                assert(copy@ == self@.entries[i as int]);
                assert(r@.map_values(|e: LogEntry| e@) == before.map_values(|e: LogEntry| e@).push(
                    copy@,
                ));
                assert(self@.entries.take(i + 1) == self@.entries.take(i as int).push(
                    self@.entries[i as int],
                ));
            }
        }
        assert(self@.entries.take(self.entries.len() as int) == self@.entries);
        r
    }

    /// The requests to bring the window up to date, without the first `seen` of them.
    pub fn frames_after(&self, seen: usize) -> (r: Vec<Frame>)
        ensures
            seen <= self@.frames.len() ==> r@.map_values(|f: Frame| f@) == self@.frames.skip(
                seen as int,
            ),
            seen > self@.frames.len() ==> r@.len() == 0,
    {
        let mut r: Vec<Frame> = Vec::new();
        let mut i: usize = seen;
        while i < self.frames.len()
            invariant
                seen <= self@.frames.len() ==> seen <= i <= self@.frames.len()
                    && r@.map_values(|f: Frame| f@) == self@.frames.subrange(
                    seen as int,
                    i as int,
                ),
                seen > self@.frames.len() ==> i == seen && r@.len() == 0,
                self@.frames.len() == self.frames.len(),
            decreases self.frames.len() - i,
        {
            let ghost before = r@;
            r.push(self.frames[i]);
            proof {
                assert(r@.map_values(|f: Frame| f@) == before.map_values(|f: Frame| f@).push(
                    self@.frames[i as int],
                ));
                assert(self@.frames.subrange(seen as int, i + 1) == self@.frames.subrange(
                    seen as int,
                    i as int,
                ).push(self@.frames[i as int]));
            }
            i += 1;
        }
        r
    }
}

impl Default for Term {
    fn default() -> (r: Term)
        ensures
            r@ == TermView::blank(),
    {
        Term::new()
    }
}

/// Logging and showing take nothing back, and no frame ever shows more lines than were logged.
pub proof fn log_only_grows(t: TermView, text: Seq<char>, level: Seq<char>, percent: u8)
    requires
        t.wf(),
    ensures
        t.add(text, level).wf() && t.grew_to(t.add(text, level)),
        t.push(percent).wf() && t.grew_to(t.push(percent)),
        t.nudge(percent).wf() && t.grew_to(t.nudge(percent)),
{
}

/// Growth adds up over any number of steps.
pub proof fn growth_is_transitive(a: TermView, b: TermView, c: TermView)
    requires
        a.grew_to(b),
        b.grew_to(c),
    ensures
        a.grew_to(c),
{
    assert forall|i: int| 0 <= i < a.entries.len() implies a.entries[i] == c.entries[i] by {
        assert(b.entries.take(a.entries.len() as int)[i] == b.entries[i]);
        assert(c.entries.take(b.entries.len() as int)[i] == c.entries[i]);
    }
    assert(a.entries == c.entries.take(a.entries.len() as int));
}

/// Each way of logging adds one line at the end, with the text as it is and the level that the way
/// stands for, and leaves all lines and all requests before it alone.
pub proof fn every_line_is_logged_as_it_is(t: TermView, text: Seq<char>)
    ensures
        t.info(text).entries == t.entries.push(EntryView { text, level: "info"@ }),
        t.ok(text).entries == t.entries.push(EntryView { text, level: "success"@ }),
        t.err(text).entries == t.entries.push(EntryView { text, level: "error"@ }),
        t.cmd(text).entries == t.entries.push(EntryView { text, level: "cmd"@ }),
        t.out(text).entries == t.entries.push(EntryView { text, level: "output"@ }),
        t.info(text).frames == t.frames && t.ok(text).frames == t.frames && t.err(text).frames
            == t.frames && t.cmd(text).frames == t.frames && t.out(text).frames == t.frames,
{
}

/// Showing the log asks for all lines that there are by then, with the progress bar where it was
/// told to be; moving the bar asks for nothing else. Neither touches a line.
pub proof fn every_frame_is_asked_for_as_it_is(t: TermView, percent: u8)
    ensures
        t.push(percent).frames == t.frames.push(
            FrameView::Lines { shown: t.entries.len(), percent },
        ),
        t.nudge(percent).frames == t.frames.push(FrameView::Progress { percent }),
        t.push(percent).entries == t.entries,
        t.nudge(percent).entries == t.entries,
        TermView::blank().entries.len() == 0,
        TermView::blank().frames.len() == 0,
{
}

/// Lines and requests to show them are seen as they are, all of them.
pub proof fn lines_and_frames_are_seen_as_they_are(e: LogEntry, shown: usize, percent: u8)
    ensures
        e@ == (EntryView { text: e.text@, level: e.level@ }),
        (Frame::Lines { shown, percent })@ == (FrameView::Lines { shown: shown as nat, percent }),
        (Frame::Progress { percent })@ == (FrameView::Progress { percent }),
{
}

} // verus!
