//! The way to root privileges: start the program again through `pkexec`, or else through `sudo`.
use crate::text;
use vstd::prelude::*;
use vstd::string::*;

verus! {

/// Whether a process with this effective user id runs as root.
pub fn is_root(euid: u32) -> (r: bool)
    ensures
        r == (euid == 0),
{
    euid == 0
}

/// A binary that starts another program with root privileges.
#[derive(Clone, Copy, Debug, PartialEq, Eq, Structural)]
pub enum Elevator {
    Pkexec,
    Sudo,
}

impl Elevator {
    pub open spec fn spec_name(self) -> Seq<char> {
        match self {
            Elevator::Pkexec => "pkexec"@,
            Elevator::Sudo => "sudo"@,
        }
    }

    /// The name of the binary.
    pub fn name(self) -> (r: &'static str)
        ensures
            r@ == self.spec_name(),
    {
        match self {
            Elevator::Pkexec => "pkexec",
            Elevator::Sudo => "sudo",
        }
    }
}

/// How far the way to root privileges has come.
#[derive(Clone, Copy, Debug, PartialEq, Eq, Structural)]
pub enum Escalation {
    /// The process runs as root and may go on.
    Granted,
    /// Find out whether this binary is installed.
    Probe(Elevator),
    /// Start the program again through this binary, and wait for it to end.
    Relaunch(Elevator),
    /// The program has run with privileges: end this process with that exit status.
    Exit(i32),
    /// There is no way: tell the user and end this process with exit status 1.
    Refused,
}

/// What happened on the way to root privileges.
#[derive(Clone, Copy, Debug, PartialEq, Eq, Structural)]
pub enum EscalationEvent {
    /// Whether the binary is installed.
    Found(bool),
    /// The program ended; with this exit status, unless a signal ended it.
    Ended(Option<i32>),
    /// The binary could not be started.
    NotStarted,
}

/// What is tried once `elevator` has turned out to be of no use.
pub open spec fn fallback(elevator: Elevator) -> Escalation {
    match elevator {
        Elevator::Pkexec => Escalation::Probe(Elevator::Sudo),
        Elevator::Sudo => Escalation::Refused,
    }
}

/// The first step of a process with the given effective user id.
pub open spec fn first_step(euid: u32) -> Escalation {
    if euid == 0 {
        Escalation::Granted
    } else {
        Escalation::Probe(Elevator::Pkexec)
    }
}

/// What an event leads to. An event that does not belong to the step changes nothing.
pub open spec fn escalation_next(s: Escalation, event: EscalationEvent) -> Escalation {
    match (s, event) {
        (Escalation::Probe(e), EscalationEvent::Found(installed)) => if installed {
            Escalation::Relaunch(e)
        } else {
            fallback(e)
        },
        (Escalation::Relaunch(_), EscalationEvent::Ended(status)) => Escalation::Exit(
            match status {
                Some(code) => code,
                None => 0,
            },
        ),
        (Escalation::Relaunch(e), EscalationEvent::NotStarted) => fallback(e),
        _ => s,
    }
}

/// Begins the way to root privileges.
pub fn ensure_root(euid: u32) -> (r: Escalation)
    ensures
        r == first_step(euid),
{
    if is_root(euid) {
        Escalation::Granted
    } else {
        Escalation::Probe(Elevator::Pkexec)
    }
}

impl Escalation {
    /// Takes note of what happened.
    pub fn step(self, event: EscalationEvent) -> (r: Escalation)
        ensures
            r == escalation_next(self, event),
    {
        match (self, event) {
            (Escalation::Probe(e), EscalationEvent::Found(true)) => Escalation::Relaunch(e),
            (Escalation::Relaunch(_), EscalationEvent::Ended(Some(code))) => Escalation::Exit(code),
            (Escalation::Relaunch(_), EscalationEvent::Ended(None)) => Escalation::Exit(0),
            (Escalation::Probe(Elevator::Pkexec), EscalationEvent::Found(false))
            | (Escalation::Relaunch(Elevator::Pkexec), EscalationEvent::NotStarted) => {
                Escalation::Probe(Elevator::Sudo)
            },
            (Escalation::Probe(Elevator::Sudo), EscalationEvent::Found(false))
            | (Escalation::Relaunch(Elevator::Sudo), EscalationEvent::NotStarted) => {
                Escalation::Refused
            },
            _ => self,
        }
    }
}

/// Where the program is taken to be if the system does not say.
pub fn fallback_program() -> (r: &'static str)
    ensures
        r@ == "/usr/bin/zerolinux-cleaner"@,
{
    "/usr/bin/zerolinux-cleaner"
}

/// What the user is told when there is no way to root privileges.
pub fn refusal_message() -> (r: &'static str)
    ensures
        r@
            == "\nZeroLinux Cleaner requires root privileges.\nPlease run:  sudo -E ./zerolinux-cleaner\n"@,
{
    "\nZeroLinux Cleaner requires root privileges.\nPlease run:  sudo -E ./zerolinux-cleaner\n"
}

/// The variables of the graphical session that the window needs, as far as they are set.
pub struct SessionEnv {
    pub display: Option<String>,
    pub wayland_display: Option<String>,
    pub xauthority: Option<String>,
    pub xdg_runtime_dir: Option<String>,
    pub dbus_session_bus_address: Option<String>,
}

/// An assignment for `env`; a variable that is not set is handed on empty.
pub open spec fn assignment(name: Seq<char>, value: Option<String>) -> Seq<char> {
    match value {
        Some(v) => name + "="@ + v@,
        None => name + "="@,
    }
}

/// An assignment for `env`; a variable that is not set is handed on empty.
fn assign(name: &str, value: &Option<String>) -> (r: String)
    ensures
        r@ == assignment(name@, *value),
{
    match value {
        Some(v) => text::concat3(name, "=", v.as_str()),
        None => text::concat2(name, "="),
    }
}

/// A command that starts the program itself: the path of the program stands between `before` and
/// `after`.
pub struct Relaunch {
    pub bin: String,
    pub before: Vec<String>,
    pub after: Vec<String>,
}

/// The arguments in front of the path of the program.
pub open spec fn launch_prefix(elevator: Elevator, env: SessionEnv) -> Seq<Seq<char>> {
    match elevator {
        Elevator::Pkexec => seq![
            "env"@,
            assignment("DISPLAY"@, env.display),
            assignment("WAYLAND_DISPLAY"@, env.wayland_display),
            assignment("XAUTHORITY"@, env.xauthority),
            assignment("XDG_RUNTIME_DIR"@, env.xdg_runtime_dir),
            assignment("DBUS_SESSION_BUS_ADDRESS"@, env.dbus_session_bus_address),
        ],
        Elevator::Sudo => seq!["-E"@],
    }
}

/// The command that starts the program again, with the arguments it was given. `pkexec` takes the
/// session's variables over one by one, `sudo` keeps the whole environment.
pub fn relaunch(elevator: Elevator, env: &SessionEnv, extra: Vec<String>) -> (r: Relaunch)
    ensures
        r.bin@ == elevator.spec_name(),
        r.before.deep_view() == launch_prefix(elevator, *env),
        r.after.deep_view() == extra.deep_view(),
{
    let mut before: Vec<String> = Vec::new();
    match elevator {
        Elevator::Pkexec => {
            before.push("env".to_owned());
            before.push(assign("DISPLAY", &env.display));
            before.push(assign("WAYLAND_DISPLAY", &env.wayland_display));
            before.push(assign("XAUTHORITY", &env.xauthority));
            before.push(assign("XDG_RUNTIME_DIR", &env.xdg_runtime_dir));
            before.push(assign("DBUS_SESSION_BUS_ADDRESS", &env.dbus_session_bus_address));
        },
        Elevator::Sudo => before.push("-E".to_owned()),
    }
    assert(before.deep_view() == launch_prefix(elevator, *env));
    Relaunch { bin: elevator.name().to_owned(), before, after: extra }
}

/// Where a series of events leads to.
pub open spec fn escalation_run(s: Escalation, events: Seq<EscalationEvent>) -> Escalation
    decreases events.len(),
{
    if events.len() == 0 {
        s
    } else {
        escalation_run(escalation_next(s, events.first()), events.drop_first())
    }
}

/// A process that does not run as root never goes on, whatever happens on the way.
pub proof fn only_root_goes_on(euid: u32, events: Seq<EscalationEvent>)
    ensures
        escalation_run(first_step(euid), events) is Granted <==> euid == 0,
{
    lemma_granted_stays(first_step(euid), events);
}

proof fn lemma_granted_stays(s: Escalation, events: Seq<EscalationEvent>)
    ensures
        escalation_run(s, events) is Granted <==> s is Granted,
    decreases events.len(),
{
    if events.len() > 0 {
        lemma_granted_stays(escalation_next(s, events.first()), events.drop_first());
    }
}

/// What comes of one binary: `None` if it is not installed, else the exit status of the program or
/// that it could not be started.
pub open spec fn attempt(outcome: Option<EscalationEvent>) -> Seq<EscalationEvent> {
    match outcome {
        Some(event) => seq![EscalationEvent::Found(true), event],
        None => seq![EscalationEvent::Found(false)],
    }
}

/// The exit status that an attempt hands on, if the program was started at all.
pub open spec fn status_of(outcome: Option<EscalationEvent>) -> Option<i32> {
    match outcome {
        Some(EscalationEvent::Ended(Some(code))) => Some(code),
        Some(EscalationEvent::Ended(None)) => Some(0),
        _ => None,
    }
}

/// A process that does not run as root ends with the exit status of the program that `pkexec`
/// started; if there is none, with that of the program that `sudo` started; and if there is none
/// either, the user is told.
pub proof fn pkexec_comes_before_sudo(
    euid: u32,
    pkexec: Option<EscalationEvent>,
    sudo: Option<EscalationEvent>,
)
    requires
        euid != 0,
        pkexec matches Some(event) ==> !(event is Found),
        sudo matches Some(event) ==> !(event is Found),
    ensures
        escalation_run(first_step(euid), attempt(pkexec) + attempt(sudo)) == match (
            status_of(pkexec),
            status_of(sudo),
        ) {
            (Some(code), _) => Escalation::Exit(code),
            (None, Some(code)) => Escalation::Exit(code),
            (None, None) => Escalation::Refused,
        },
{
    let events = attempt(pkexec) + attempt(sudo);
    reveal_with_fuel(escalation_run, 5);
    if pkexec is Some {
        assert(events.drop_first().drop_first() == attempt(sudo));
    } else {
        assert(events.drop_first() == attempt(sudo));
    }
}

/// An assignment is the name, the equals sign and the value as it is, or nothing behind the sign if
/// the variable is not set.
pub proof fn assignments_hand_values_on(name: Seq<char>, value: String)
    ensures
        assignment(name, Some(value)) == name + "="@ + value@,
        assignment(name, None) == name + "="@,
{
}

/// `pkexec` is handed every variable of the session under its own name, in front of the program;
/// `sudo` is told to keep the environment.
pub proof fn the_session_is_handed_on(env: SessionEnv)
    ensures
        ({
            let value = |v: Option<String>|
                match v {
                    Some(s) => s@,
                    None => Seq::<char>::empty(),
                };
            launch_prefix(Elevator::Pkexec, env) == seq![
                "env"@,
                "DISPLAY"@ + "="@ + value(env.display),
                "WAYLAND_DISPLAY"@ + "="@ + value(env.wayland_display),
                "XAUTHORITY"@ + "="@ + value(env.xauthority),
                "XDG_RUNTIME_DIR"@ + "="@ + value(env.xdg_runtime_dir),
                "DBUS_SESSION_BUS_ADDRESS"@ + "="@ + value(env.dbus_session_bus_address),
            ]
        }),
        launch_prefix(Elevator::Sudo, env) == seq!["-E"@],
{
    let value = |v: Option<String>|
        match v {
            Some(s) => s@,
            None => Seq::<char>::empty(),
        };
    assert forall|name: Seq<char>, v: Option<String>| #[trigger]
        assignment(name, v) == name + "="@ + value(v) by {
        assert(name + "="@ + Seq::<char>::empty() == name + "="@);
    }
    assert(launch_prefix(Elevator::Pkexec, env) == seq![
        "env"@,
        "DISPLAY"@ + "="@ + value(env.display),
        "WAYLAND_DISPLAY"@ + "="@ + value(env.wayland_display),
        "XAUTHORITY"@ + "="@ + value(env.xauthority),
        "XDG_RUNTIME_DIR"@ + "="@ + value(env.xdg_runtime_dir),
        "DBUS_SESSION_BUS_ADDRESS"@ + "="@ + value(env.dbus_session_bus_address),
    ]);
}

/// Every user but the first one has to go through another program, and whatever exit status that one
/// hands back is the one to end with; a signal counts as none. Where nothing could be started, the
/// next way is tried, and there are two.
pub proof fn exit_statuses_are_handed_on(euid: u32, e: Elevator, code: i32)
    ensures
        euid != 0 ==> first_step(euid) == Escalation::Probe(Elevator::Pkexec),
        first_step(0) == Escalation::Granted,
        escalation_next(Escalation::Probe(e), EscalationEvent::Found(true)) == Escalation::Relaunch(
            e,
        ),
        escalation_next(Escalation::Relaunch(e), EscalationEvent::Ended(Some(code)))
            == Escalation::Exit(code),
        escalation_next(Escalation::Relaunch(e), EscalationEvent::Ended(None)) == Escalation::Exit(
            0,
        ),
        escalation_next(Escalation::Probe(Elevator::Pkexec), EscalationEvent::Found(false))
            == Escalation::Probe(Elevator::Sudo),
        escalation_next(Escalation::Relaunch(Elevator::Pkexec), EscalationEvent::NotStarted)
            == Escalation::Probe(Elevator::Sudo),
        escalation_next(Escalation::Probe(Elevator::Sudo), EscalationEvent::Found(false))
            == Escalation::Refused,
        escalation_next(Escalation::Relaunch(Elevator::Sudo), EscalationEvent::NotStarted)
            == Escalation::Refused,
{
}

} // verus!
