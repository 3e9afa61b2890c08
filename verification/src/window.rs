//! What the window shows of an operation, and when it lets the user start one.
use crate::terminal::Frame;
use vstd::prelude::*;

verus! {

/// The state of the window.
#[derive(Clone, Copy, Debug, PartialEq, Eq, Structural)]
pub struct Window {
    /// An operation is under way.
    pub busy: bool,
    /// The statistics are being brought up to date on the user's wish.
    pub refreshing: bool,
    /// Where the progress bar stands, in percent.
    pub percent: u8,
    /// How many lines of the log are shown.
    pub shown: usize,
}

impl Window {
    pub open spec fn spec_start(self) -> Option<Window> {
        if self.busy {
            None
        } else {
            Some(Window { busy: true, percent: 0, shown: 0, ..self })
        }
    }

    /// The window at the start of an operation; `None` if one is under way, and no other may start.
    pub fn start(self) -> (r: Option<Window>)
        ensures
            r == self.spec_start(),
    {
        if self.busy {
            None
        } else {
            Some(Window { busy: true, refreshing: self.refreshing, percent: 0, shown: 0 })
        }
    }

    pub open spec fn spec_show(self, frame: Frame) -> Window {
        match frame {
            Frame::Lines { shown, percent } => Window { shown, percent, ..self },
            Frame::Progress { percent } => Window { percent, ..self },
        }
    }

    /// The window once it is brought up to date.
    pub fn show(self, frame: Frame) -> (r: Window)
        ensures
            r == self.spec_show(frame),
    {
        let Window { busy, refreshing, shown: before, .. } = self;
        match frame {
            Frame::Lines { shown, percent } => Window { busy, refreshing, percent, shown },
            Frame::Progress { percent } => Window { busy, refreshing, percent, shown: before },
        }
    }

    pub open spec fn spec_finish(self, lines: usize) -> Window {
        Window { busy: false, percent: 100, shown: lines, ..self }
    }

    /// The window at the end of an operation whose log has so many lines.
    pub fn finish(self, lines: usize) -> (r: Window)
        ensures
            r == self.spec_finish(lines),
    {
        Window { busy: false, refreshing: self.refreshing, percent: 100, shown: lines }
    }

    /// The window while the statistics are brought up to date on the user's wish, and afterwards.
    pub fn refresh(self, refreshing: bool) -> (r: Window)
        ensures
            r == (Window { refreshing, ..self }),
    {
        Window { busy: self.busy, refreshing, percent: self.percent, shown: self.shown }
    }

    /// Whether the statistics may be replaced that are collected every few seconds.
    pub fn takes_stats(self) -> (r: bool)
        ensures
            r == !self.busy,
    {
        !self.busy
    }
}

/// The window once it is brought up to date time and again.
pub open spec fn shown_all(w: Window, frames: Seq<Frame>) -> Window
    decreases frames.len(),
{
    if frames.len() == 0 {
        w
    } else {
        shown_all(w, frames.drop_last()).spec_show(frames.last())
    }
}

/// From the start of an operation to its end no other one starts, however often the window is
/// brought up to date in between; afterwards one may start again.
pub proof fn one_operation_at_a_time(w: Window, frames: Seq<Frame>, lines: usize)
    requires
        !w.busy,
    ensures
        w.spec_start() matches Some(started) && {
            let during = shown_all(started, frames);
            &&& during.spec_start() is None
            &&& during.spec_finish(lines).spec_start() == Some(started)
        },
    decreases frames.len(),
{
    if frames.len() > 0 {
        one_operation_at_a_time(w, frames.drop_last(), lines);
    }
}

/// What the window shows at each moment: nothing at the start of an operation, then as many lines and
/// as much progress as was last asked for, and everything at the end. Whether the statistics are
/// being refreshed has nothing to do with it.
pub proof fn the_window_shows_what_was_asked_for(w: Window, shown: usize, percent: u8)
    ensures
        w.busy ==> w.spec_start() is None,
        !w.busy ==> w.spec_start() == Some(
            Window { busy: true, refreshing: w.refreshing, percent: 0, shown: 0 },
        ),
        w.spec_show(Frame::Lines { shown, percent }) == (Window {
            busy: w.busy,
            refreshing: w.refreshing,
            percent,
            shown,
        }),
        w.spec_show(Frame::Progress { percent }) == (Window {
            busy: w.busy,
            refreshing: w.refreshing,
            percent,
            shown: w.shown,
        }),
        w.spec_finish(shown) == (Window {
            busy: false,
            refreshing: w.refreshing,
            percent: 100,
            shown,
        }),
{
}

} // verus!
