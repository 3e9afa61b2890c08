//! The timer that runs the cleaner by itself.
use crate::command::{Invocation, InvocationView};
use crate::text;
use vstd::prelude::*;
use vstd::string::*;

verus! {

/// How often the cleaner runs.
#[derive(Clone, Copy, Debug, PartialEq, Eq, Structural)]
pub enum Interval {
    Daily,
    Weekly,
    Monthly,
}

/// The interval that a text names; weekly, if it names none.
pub open spec fn interval_named(name: Seq<char>) -> Interval {
    if name == "daily"@ {
        Interval::Daily
    } else if name == "monthly"@ {
        Interval::Monthly
    } else {
        Interval::Weekly
    }
}

impl Interval {
    pub open spec fn spec_calendar(self) -> Seq<char> {
        match self {
            Interval::Daily => "daily"@,
            Interval::Weekly => "weekly"@,
            Interval::Monthly => "monthly"@,
        }
    }

    /// The word for the interval in a timer unit.
    pub fn calendar(self) -> (r: &'static str)
        ensures
            r@ == self.spec_calendar(),
    {
        match self {
            Interval::Daily => "daily",
            Interval::Weekly => "weekly",
            Interval::Monthly => "monthly",
        }
    }

    /// The interval that a text names; weekly, if it names none.
    pub fn named(name: &str) -> (r: Interval)
        ensures
            r == interval_named(name@),
    {
        if text::same_text(name, "daily") {
            Interval::Daily
        } else if text::same_text(name, "monthly") {
            Interval::Monthly
        } else {
            Interval::Weekly
        }
    }
}

/// What is to become of the timer.
#[derive(Clone, Copy, Debug, PartialEq, Eq, Structural)]
pub enum Schedule {
    Enable(Interval),
    Disable,
}

/// The wish of the user, with the interval as the text that was chosen.
pub open spec fn schedule_wished(enabled: bool, interval: Seq<char>) -> Schedule {
    if enabled {
        Schedule::Enable(interval_named(interval))
    } else {
        Schedule::Disable
    }
}

/// Turns the wish of the user into what is to become of the timer.
pub fn toggle_scheduler(enabled: bool, interval: &str) -> (r: Schedule)
    ensures
        r == schedule_wished(enabled, interval@),
{
    if enabled {
        Schedule::Enable(Interval::named(interval))
    } else {
        Schedule::Disable
    }
}

/// Where the timer unit is kept.
pub fn unit_path() -> (r: &'static str)
    ensures
        r@ == "/etc/systemd/system/zerolinux-cleaner.timer"@,
{
    "/etc/systemd/system/zerolinux-cleaner.timer"
}

/// The text of the timer unit.
pub open spec fn unit_text(interval: Interval) -> Seq<char> {
    "[Unit]\nDescription=ZeroLinux Auto Cleaner\n\n[Timer]\nOnCalendar="@
        + interval.spec_calendar() + "\nPersistent=true\n\n[Install]\nWantedBy=timers.target\n"@
}

/// The commands that turn the timer on.
pub open spec fn enabling() -> Seq<InvocationView> {
    seq![
        InvocationView::of("systemctl"@).arg("daemon-reload"@),
        InvocationView::of("systemctl"@).arg("enable"@).arg("--now"@).arg(
            "zerolinux-cleaner.timer"@,
        ),
    ]
}

/// The commands that turn the timer off.
pub open spec fn disabling() -> Seq<InvocationView> {
    seq![
        InvocationView::of("systemctl"@).arg("disable"@).arg("--now"@).arg(
            "zerolinux-cleaner.timer"@,
        ),
    ]
}

/// The commands to run, in order. The timer is only turned on if its unit could be written.
pub open spec fn schedule_commands(s: Schedule, written: bool) -> Seq<InvocationView> {
    match s {
        Schedule::Enable(_) => if written {
            enabling()
        } else {
            Seq::empty()
        },
        Schedule::Disable => disabling(),
    }
}

impl Schedule {
    pub open spec fn spec_unit(self) -> Option<Seq<char>> {
        match self {
            Schedule::Enable(interval) => Some(unit_text(interval)),
            Schedule::Disable => None,
        }
    }

    /// The text to write to the timer unit, if it is to be written.
    pub fn unit(self) -> (r: Option<String>)
        ensures
            text::text_in(r) == self.spec_unit(),
    {
        match self {
            Schedule::Enable(interval) => Some(
                text::concat3(
                    "[Unit]\nDescription=ZeroLinux Auto Cleaner\n\n[Timer]\nOnCalendar=",
                    interval.calendar(),
                    "\nPersistent=true\n\n[Install]\nWantedBy=timers.target\n",
                ),
            ),
            Schedule::Disable => None,
        }
    }

    /// The commands to run, in order; `written` tells whether the unit could be written.
    pub fn commands(self, written: bool) -> (r: Vec<Invocation>)
        ensures
            r@.map_values(|c: Invocation| c@) == schedule_commands(self, written),
    {
        let mut r: Vec<Invocation> = Vec::new();
        match self {
            Schedule::Enable(_) => {
                if written {
                    r.push(Invocation::new("systemctl").arg("daemon-reload"));
                    r.push(
                        Invocation::new("systemctl").arg("enable").arg("--now").arg(
                            "zerolinux-cleaner.timer",
                        ),
                    );
                }
            },
            Schedule::Disable => {
                r.push(
                    Invocation::new("systemctl").arg("disable").arg("--now").arg(
                        "zerolinux-cleaner.timer",
                    ),
                );
            },
        }
        assert(r@.map_values(|c: Invocation| c@) == schedule_commands(self, written));
        r
    }
}

/// The text that the user chose reaches neither a command nor the timer unit: the commands do not
/// depend on it, and the unit is one of three.
pub proof fn chosen_text_goes_nowhere(enabled: bool, a: Seq<char>, b: Seq<char>, written: bool)
    ensures
        schedule_commands(schedule_wished(enabled, a), written) == schedule_commands(
            schedule_wished(enabled, b),
            written,
        ),
        schedule_wished(enabled, a).spec_unit() matches Some(unit) ==> unit == unit_text(
            Interval::Daily,
        ) || unit == unit_text(Interval::Weekly) || unit == unit_text(Interval::Monthly),
{
}

/// Every interval is found again under its own word.
pub proof fn intervals_keep_their_names(interval: Interval)
    ensures
        interval_named(interval.spec_calendar()) == interval,
{
    reveal_strlit("daily");
    reveal_strlit("weekly");
    reveal_strlit("monthly");
    assert("daily"@.len() == 5 && "weekly"@.len() == 6 && "monthly"@.len() == 7);
}

/// The lines of the timer unit for a word.
proof fn lemma_unit_lines(word: Seq<char>)
    requires
        !word.contains('\n'),
        word.len() > 0,
        word.last() != '\r',
    ensures
        text::lines_of(
            "[Unit]\nDescription=ZeroLinux Auto Cleaner\n\n[Timer]\nOnCalendar="@ + word
                + "\nPersistent=true\n\n[Install]\nWantedBy=timers.target\n"@,
        ) == seq![
            "[Unit]"@,
            "Description=ZeroLinux Auto Cleaner"@,
            ""@,
            "[Timer]"@,
            "OnCalendar="@ + word,
            "Persistent=true"@,
            ""@,
            "[Install]"@,
            "WantedBy=timers.target"@,
        ],
{
    let feed = seq!['\n'];
    let none = Seq::<char>::empty();
    let head = "[Unit]\nDescription=ZeroLinux Auto Cleaner\n\n[Timer]\nOnCalendar="@;
    let tail = "\nPersistent=true\n\n[Install]\nWantedBy=timers.target\n"@;
    reveal_strlit("[Unit]\nDescription=ZeroLinux Auto Cleaner\n\n[Timer]\nOnCalendar=");
    reveal_strlit("\nPersistent=true\n\n[Install]\nWantedBy=timers.target\n");
    reveal_strlit("[Unit]");
    reveal_strlit("Description=ZeroLinux Auto Cleaner");
    reveal_strlit("");
    reveal_strlit("[Timer]");
    reveal_strlit("OnCalendar=");
    reveal_strlit("Persistent=true");
    reveal_strlit("[Install]");
    reveal_strlit("WantedBy=timers.target");
    let calendar = "OnCalendar="@ + word;
    assert(""@ == none);
    let s8 = "WantedBy=timers.target"@ + feed + none;
    let s7 = "[Install]"@ + feed + s8;
    let s6 = ""@ + feed + s7;
    let s5 = "Persistent=true"@ + feed + s6;
    let s4 = calendar + feed + s5;
    let s3 = "[Timer]"@ + feed + s4;
    let s2 = ""@ + feed + s3;
    let s1 = "Description=ZeroLinux Auto Cleaner"@ + feed + s2;
    let s0 = "[Unit]"@ + feed + s1;
    assert(tail == feed + s5);
    assert(head == "[Unit]"@ + feed + ("Description=ZeroLinux Auto Cleaner"@ + feed + (""@ + feed
        + ("[Timer]"@ + feed + "OnCalendar="@))));
    assert(head + word + tail == s0);
    assert(!calendar.contains('\n')) by {
        if calendar.contains('\n') {
            let k = choose|k: int| 0 <= k < calendar.len() && calendar[k] == '\n';
            if k >= "OnCalendar="@.len() {
                assert(word[k - "OnCalendar="@.len()] == '\n');
            }
        }
    }
    assert(calendar.last() == word.last());
    text::lines_end_at_line_feeds("WantedBy=timers.target"@, none);
    text::lines_end_at_line_feeds("[Install]"@, s8);
    text::lines_end_at_line_feeds(""@, s7);
    text::lines_end_at_line_feeds("Persistent=true"@, s6);
    text::lines_end_at_line_feeds(calendar, s5);
    text::lines_end_at_line_feeds("[Timer]"@, s4);
    text::lines_end_at_line_feeds(""@, s3);
    text::lines_end_at_line_feeds("Description=ZeroLinux Auto Cleaner"@, s2);
    text::lines_end_at_line_feeds("[Unit]"@, s1);
}

/// Turning the timer on writes a unit whose lines say what the timer is for and when it runs: at the
/// interval that was chosen, in its own word, for each of the three; any other text means weekly.
pub proof fn timer_units_name_their_interval(chosen: Seq<char>)
    ensures
        ({
            let word = if chosen == "daily"@ || chosen == "monthly"@ {
                chosen
            } else {
                "weekly"@
            };
            schedule_wished(true, chosen).spec_unit() matches Some(unit) && text::lines_of(unit)
                == seq![
                "[Unit]"@,
                "Description=ZeroLinux Auto Cleaner"@,
                ""@,
                "[Timer]"@,
                "OnCalendar="@ + word,
                "Persistent=true"@,
                ""@,
                "[Install]"@,
                "WantedBy=timers.target"@,
            ]
        }),
        schedule_wished(false, chosen).spec_unit() is None,
{
    reveal_strlit("daily");
    reveal_strlit("weekly");
    reveal_strlit("monthly");
    assert("daily"@.len() == 5 && "weekly"@.len() == 6 && "monthly"@.len() == 7);
    lemma_unit_lines("daily"@);
    lemma_unit_lines("weekly"@);
    lemma_unit_lines("monthly"@);
}

/// Units for different intervals differ.
pub proof fn units_of_different_intervals_differ(a: Interval, b: Interval)
    requires
        a != b,
    ensures
        Schedule::Enable(a).spec_unit() != Schedule::Enable(b).spec_unit(),
{
    intervals_keep_their_names(a);
    intervals_keep_their_names(b);
    timer_units_name_their_interval(a.spec_calendar());
    timer_units_name_their_interval(b.spec_calendar());
    let wa = "OnCalendar="@ + a.spec_calendar();
    let wb = "OnCalendar="@ + b.spec_calendar();
    let n = "OnCalendar="@.len() as int;
    reveal_strlit("daily");
    reveal_strlit("weekly");
    reveal_strlit("monthly");
    assert(wa.skip(n) == a.spec_calendar());
    assert(wb.skip(n) == b.spec_calendar());
    if Schedule::Enable(a).spec_unit() == Schedule::Enable(b).spec_unit() {
        let lines = text::lines_of(unit_text(a));
        assert(lines[4] == wa);
        assert(lines[4] == wb);
        assert(false);
    }
}

/// Turning the timer on reloads systemd and then enables the timer, but runs nothing if the unit
/// could not be written; turning it off disables the timer.
pub proof fn the_timer_is_turned_on_and_off(chosen: Seq<char>, written: bool)
    ensures
        schedule_commands(schedule_wished(true, chosen), true) == seq![
            InvocationView { bin: "systemctl"@, args: seq!["daemon-reload"@] },
            InvocationView {
                bin: "systemctl"@,
                args: seq!["enable"@, "--now"@, "zerolinux-cleaner.timer"@],
            },
        ],
        schedule_commands(schedule_wished(true, chosen), false) == Seq::<InvocationView>::empty(),
        schedule_commands(schedule_wished(false, chosen), written) == seq![
            InvocationView {
                bin: "systemctl"@,
                args: seq!["disable"@, "--now"@, "zerolinux-cleaner.timer"@],
            },
        ],
{
    assert(enabling()[0] == (InvocationView { bin: "systemctl"@, args: seq!["daemon-reload"@] }));
    assert(enabling()[1] == (InvocationView {
        bin: "systemctl"@,
        args: seq!["enable"@, "--now"@, "zerolinux-cleaner.timer"@],
    }));
    assert(disabling()[0] == (InvocationView {
        bin: "systemctl"@,
        args: seq!["disable"@, "--now"@, "zerolinux-cleaner.timer"@],
    }));
}

} // verus!
