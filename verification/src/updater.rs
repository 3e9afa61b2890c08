//! The system update: what it does step by step, and what it tells the user.
use crate::aur;
use crate::aur::{AurHelper, AurSearch};
use crate::cleaner;
use crate::command::{Captured, CapturedView, Invocation, InvocationView};
use crate::operation;
use crate::operation::{Reply, ReplyView, Request, RequestView};
use crate::terminal::{Term, TermView};
use crate::text;
use vstd::prelude::*;
use vstd::string::*;

verus! {

/// How an update ends.
pub type UpdateResult = Result<(), String>;

/// How many pending updates are listed by name.
pub const LISTED: usize = 30;

/// A character that plain user names are made of.
pub open spec fn user_char(c: char) -> bool {
    text::is_alphanumeric(c) || c == '_' || c == '-'
}

/// A plain user name.
pub open spec fn plain_user(s: Seq<char>) -> bool {
    s.len() > 0 && forall|i: int| 0 <= i < s.len() ==> user_char(#[trigger] s[i])
}

/// The user other than root on whose behalf the program was started, given the value of
/// `SUDO_USER`.
pub open spec fn user_of(sudo_user: Option<Seq<char>>) -> Option<Seq<char>> {
    match sudo_user {
        Some(name) => if plain_user(name) && name != "root"@ {
            Some(name)
        } else {
            None
        },
        None => None,
    }
}

/// The pending updates that `checkupdates` listed, one to a line; none if it could not be run.
pub open spec fn updates_of(out: Option<CapturedView>) -> Seq<Seq<char>> {
    match out {
        Some(c) => text::filled_lines(text::lossy_text(c.stdout)),
        None => Seq::empty(),
    }
}

/// Whether `s` is a plain user name.
pub fn is_plain_user(s: &str) -> (r: bool)
    ensures
        r == plain_user(s@),
{
    let cs = text::chars_of(s);
    for i in 0..cs.len()
        invariant
            cs@ == s@,
            forall|k: int| 0 <= k < i ==> user_char(#[trigger] s@[k]),
    {
        let c = cs[i];
        if !(c.is_alphanumeric() || c == '_' || c == '-') {
            assert(!user_char(s@[i as int]));
            return false;
        }
    }
    cs.len() > 0
}

/// The user other than root on whose behalf the program was started, given the value of
/// `SUDO_USER`.
pub fn original_user(sudo_user: Option<String>) -> (r: Option<String>)
    ensures
        text::text_in(r) == user_of(text::text_in(sudo_user)),
{
    match sudo_user {
        Some(name) => {
            if is_plain_user(name.as_str()) && !text::same_text(name.as_str(), "root") {
                Some(name)
            } else {
                None
            }
        },
        None => None,
    }
}

/// The pending updates that `checkupdates` listed.
pub fn check_updates(out: &Option<Captured>) -> (r: Vec<String>)
    ensures
        r.deep_view() == updates_of(crate::command::capture(*out)),
{
    match out {
        Some(c) => text::nonblank_lines(text::from_utf8_lossy(c.stdout.as_slice()).as_str()),
        None => {
            let r: Vec<String> = Vec::new();
            assert(r.deep_view() == Seq::<Seq<char>>::empty());
            r
        },
    }
}

/// The step at which the update waits for the system.
pub enum UpdatePhase {
    Sync,
    Check,
    Upgrade,
    Probe(AurHelper),
    AskUser(AurHelper),
    AurUpgrade(AurHelper, String),
    FlatpakProbe,
    Flatpak,
}

/// The step at which the update waits, as a mathematical value.
pub enum UpdatePhaseView {
    Sync,
    Check,
    Upgrade,
    Probe(AurHelper),
    AskUser(AurHelper),
    AurUpgrade(AurHelper, Seq<char>),
    FlatpakProbe,
    Flatpak,
}

impl View for UpdatePhase {
    type V = UpdatePhaseView;

    open spec fn view(&self) -> UpdatePhaseView {
        match *self {
            UpdatePhase::Sync => UpdatePhaseView::Sync,
            UpdatePhase::Check => UpdatePhaseView::Check,
            UpdatePhase::Upgrade => UpdatePhaseView::Upgrade,
            UpdatePhase::Probe(h) => UpdatePhaseView::Probe(h),
            UpdatePhase::AskUser(h) => UpdatePhaseView::AskUser(h),
            UpdatePhase::AurUpgrade(h, user) => UpdatePhaseView::AurUpgrade(h, user@),
            UpdatePhase::FlatpakProbe => UpdatePhaseView::FlatpakProbe,
            UpdatePhase::Flatpak => UpdatePhaseView::Flatpak,
        }
    }
}

/// A system update under way.
pub struct Updater {
    phase: UpdatePhase,
}

impl View for Updater {
    type V = UpdatePhaseView;

    closed spec fn view(&self) -> UpdatePhaseView {
        self.phase@
    }
}

/// An update goes on or has ended.
pub enum UpdateStep {
    Continue(Updater),
    Done(UpdateResult),
}

/// An update that goes on or has ended, as a mathematical value.
pub enum UpdateStepView {
    Continue(UpdatePhaseView),
    /// `None` for success, else what went wrong.
    Done(Option<Seq<char>>),
}

impl View for UpdateStep {
    type V = UpdateStepView;

    open spec fn view(&self) -> UpdateStepView {
        match *self {
            UpdateStep::Continue(u) => UpdateStepView::Continue(u@),
            UpdateStep::Done(r) => UpdateStepView::Done(crate::command::failure(r)),
        }
    }
}

/// The command that upgrades AUR packages: the helper runs as `user`, not as the caller.
pub open spec fn aur_upgrade(h: AurHelper, user: Seq<char>) -> InvocationView {
    InvocationView::of("sudo"@).arg("-u"@).arg(user).arg(h.spec_name()).arg("-Su"@).arg(
        "--noconfirm"@,
    )
}

/// What the update asks of the system at each step.
pub open spec fn update_request(phase: UpdatePhaseView) -> RequestView {
    match phase {
        UpdatePhaseView::Sync => RequestView::Stream {
            command: InvocationView::of("pacman"@).arg("-Sy"@),
            percent: 10,
        },
        UpdatePhaseView::Check => RequestView::Capture(InvocationView::of("checkupdates"@)),
        UpdatePhaseView::Upgrade => RequestView::Stream {
            command: InvocationView::of("pacman"@).arg("-Su"@).arg("--noconfirm"@),
            percent: 65,
        },
        UpdatePhaseView::Probe(h) => RequestView::Which(h.spec_name()),
        UpdatePhaseView::AskUser(_) => RequestView::LaunchingUser,
        UpdatePhaseView::AurUpgrade(h, user) => RequestView::Stream {
            command: aur_upgrade(h, user),
            percent: 85,
        },
        UpdatePhaseView::FlatpakProbe => RequestView::Which("flatpak"@),
        UpdatePhaseView::Flatpak => RequestView::Stream {
            command: InvocationView::of("flatpak"@).arg("update"@).arg("--noninteractive"@),
            percent: 95,
        },
    }
}

/// A success goes into the log in the given words, a failure in its own behind `label`.
pub open spec fn labelled_outcome_told(
    t: TermView,
    failure: Option<Seq<char>>,
    success: Seq<char>,
    label: Seq<char>,
) -> TermView {
    match failure {
        Some(e) => t.err(label + e),
        None => t.ok(success),
    }
}

/// The log with each line as output, set in by two blanks.
pub open spec fn listed(t: TermView, lines: Seq<Seq<char>>) -> TermView
    decreases lines.len(),
{
    if lines.len() == 0 {
        t
    } else {
        listed(t, lines.drop_last()).out("  "@ + lines.last())
    }
}

/// The log with the pending updates: how many, the first of them by name, how many more.
pub open spec fn updates_told(t: TermView, updates: Seq<Seq<char>>) -> TermView {
    let counted = t.info(text::decimal(updates.len()) + " package(s) to upgrade:"@);
    if updates.len() > LISTED {
        listed(counted, updates.take(LISTED as int)).out(
            "  … and "@ + text::decimal((updates.len() - LISTED) as nat) + " more"@,
        )
    } else {
        listed(counted, updates)
    }
}

/// The log at the start of the update.
pub open spec fn update_begun(t: TermView) -> TermView {
    t.info("══ System Update ════════════════════"@).push(5).info("Syncing package databases..."@)
}

/// What a reply leads to: the update goes on or ends, and the log grows. A reply that does not
/// answer the request changes nothing.
pub open spec fn update_next(phase: UpdatePhaseView, reply: ReplyView, t: TermView) -> (
    UpdateStepView,
    TermView,
) {
    let go = |phase: UpdatePhaseView| UpdateStepView::Continue(phase);
    match (phase, reply) {
        (UpdatePhaseView::Sync, ReplyView::Ended(r)) => (
            go(UpdatePhaseView::Check),
            labelled_outcome_told(t, r, "Databases synced."@, "Database sync failed: "@),
        ),
        (UpdatePhaseView::Check, ReplyView::Output(out)) => {
            let updates = updates_of(out);
            if updates.len() == 0 {
                (
                    go(UpdatePhaseView::Probe(AurHelper::Paru)),
                    t.ok("System is already up to date!"@),
                )
            } else {
                (
                    go(UpdatePhaseView::Upgrade),
                    updates_told(t, updates).push(30).info("Upgrading system packages..."@),
                )
            }
        },
        (UpdatePhaseView::Upgrade, ReplyView::Ended(r)) => (
            go(UpdatePhaseView::Probe(AurHelper::Paru)),
            labelled_outcome_told(t, r, "System packages upgraded."@, "Upgrade error: "@),
        ),
        (UpdatePhaseView::Probe(h), ReplyView::Found(installed)) => match aur::search_next(
            h,
            installed,
        ) {
            AurSearch::Ask(next) => (go(UpdatePhaseView::Probe(next)), t),
            AurSearch::Found(found) => (
                go(UpdatePhaseView::AskUser(found)),
                t.info("Updating AUR packages with "@ + found.spec_name() + "..."@),
            ),
            AurSearch::NoHelper => (go(UpdatePhaseView::FlatpakProbe), t),
        },
        (UpdatePhaseView::AskUser(h), ReplyView::User(name)) => match user_of(name) {
            Some(user) => (go(UpdatePhaseView::AurUpgrade(h, user)), t),
            None => (
                go(UpdatePhaseView::FlatpakProbe),
                t.err("Cannot determine non-root user for AUR update; skipping."@),
            ),
        },
        (UpdatePhaseView::AurUpgrade(h, _), ReplyView::Ended(r)) => (
            go(UpdatePhaseView::FlatpakProbe),
            cleaner::outcome_told(t, r, "AUR updated via "@ + h.spec_name() + "."@),
        ),
        (UpdatePhaseView::FlatpakProbe, ReplyView::Found(installed)) => {
            if installed {
                (go(UpdatePhaseView::Flatpak), t.info("Updating Flatpak applications..."@))
            } else {
                (UpdateStepView::Done(None), t.push(100))
            }
        },
        (UpdatePhaseView::Flatpak, ReplyView::Ended(r)) => (
            UpdateStepView::Done(None),
            cleaner::outcome_told(t, r, "Flatpak applications updated."@).push(100),
        ),
        _ => (UpdateStepView::Continue(phase), t),
    }
}

/// Logs a success in the given words, a failure in its own behind `label`.
fn tell_labelled(term: &mut Term, r: &Result<(), String>, success: &str, label: &str)
    ensures
        final(term)@ == labelled_outcome_told(
            old(term)@,
            crate::command::failure(*r),
            success@,
            label@,
        ),
{
    match r {
        Ok(_) => term.ok(success),
        Err(e) => term.err(text::concat2(label, e.as_str()).as_str()),
    }
}

/// Logs the pending updates.
fn tell_updates(term: &mut Term, updates: &Vec<String>)
    ensures
        final(term)@ == updates_told(old(term)@, updates.deep_view()),
{
    let ghost all = updates.deep_view();
    let total: usize = updates.len();
    term.info(
        text::concat2(
            text::decimal_text(total as u64).as_str(),
            " package(s) to upgrade:",
        ).as_str(),
    );
    let ghost counted = term@;
    let shown: usize = if total > LISTED {
        LISTED
    } else {
        total
    };
    assert(all.take(0) == Seq::<Seq<char>>::empty());
    for i in 0..shown
        invariant
            shown <= updates.len(),
            all == updates.deep_view(),
            term@ == listed(counted, all.take(i as int)),
    {
        term.out(text::concat2("  ", updates[i].as_str()).as_str());
        proof {
            assert(all.take(i + 1).drop_last() == all.take(i as int));
            assert(all.take(i + 1).last() == updates@[i as int]@);
        }
    }
    if total > LISTED {
        term.out(
            text::concat3(
                "  … and ",
                text::decimal_text((total - LISTED) as u64).as_str(),
                " more",
            ).as_str(),
        );
    } else {
        assert(all.take(shown as int) == all);
    }
}

/// Begins the system update: official packages, then AUR packages if there is a helper, then
/// Flatpak applications if Flatpak is installed.
pub fn system_update(term: &mut Term) -> (r: Updater)
    ensures
        r@ == UpdatePhaseView::Sync,
        final(term)@ == update_begun(old(term)@),
{
    term.info("══ System Update ════════════════════");
    term.push_to_ui(5);
    term.info("Syncing package databases...");
    Updater { phase: UpdatePhase::Sync }
}

impl Updater {
    /// What the update waits for.
    pub fn request(&self) -> (r: Request)
        ensures
            r@ == update_request(self@),
    {
        match &self.phase {
            UpdatePhase::Sync => Request::Stream {
                command: Invocation::new("pacman").arg("-Sy"),
                percent: 10,
            },
            UpdatePhase::Check => Request::Capture(Invocation::new("checkupdates")),
            UpdatePhase::Upgrade => Request::Stream {
                command: Invocation::new("pacman").arg("-Su").arg("--noconfirm"),
                percent: 65,
            },
            UpdatePhase::Probe(h) => Request::Which(h.name().to_owned()),
            UpdatePhase::AskUser(_) => Request::LaunchingUser,
            UpdatePhase::AurUpgrade(h, user) => Request::Stream {
                command: Invocation::new("sudo").arg("-u").arg(user.as_str()).arg(h.name()).arg(
                    "-Su",
                ).arg("--noconfirm"),
                percent: 85,
            },
            UpdatePhase::FlatpakProbe => Request::Which("flatpak".to_owned()),
            UpdatePhase::Flatpak => Request::Stream {
                command: Invocation::new("flatpak").arg("update").arg("--noninteractive"),
                percent: 95,
            },
        }
    }

    /// Takes note of the answer to the request.
    pub fn resume(self, reply: Reply, term: &mut Term) -> (r: UpdateStep)
        ensures
            (r@, final(term)@) == update_next(self@, reply@, old(term)@),
    {
        match (self.phase, reply) {
            (UpdatePhase::Sync, Reply::Ended(r)) => {
                tell_labelled(term, &r, "Databases synced.", "Database sync failed: ");
                UpdateStep::Continue(Updater { phase: UpdatePhase::Check })
            },
            (UpdatePhase::Check, Reply::Output(out)) => {
                let updates = check_updates(&out);
                if updates.len() == 0 {
                    term.ok("System is already up to date!");
                    UpdateStep::Continue(Updater { phase: UpdatePhase::Probe(AurHelper::Paru) })
                } else {
                    tell_updates(term, &updates);
                    term.push_to_ui(30);
                    term.info("Upgrading system packages...");
                    UpdateStep::Continue(Updater { phase: UpdatePhase::Upgrade })
                }
            },
            (UpdatePhase::Upgrade, Reply::Ended(r)) => {
                tell_labelled(term, &r, "System packages upgraded.", "Upgrade error: ");
                UpdateStep::Continue(Updater { phase: UpdatePhase::Probe(AurHelper::Paru) })
            },
            (UpdatePhase::Probe(h), Reply::Found(installed)) => {
                match aur::detect_aur_helper(h, installed) {
                    AurSearch::Ask(next) => UpdateStep::Continue(
                        Updater { phase: UpdatePhase::Probe(next) },
                    ),
                    AurSearch::Found(found) => {
                        term.info(
                            text::concat3("Updating AUR packages with ", found.name(), "...").as_str(),
                        );
                        UpdateStep::Continue(Updater { phase: UpdatePhase::AskUser(found) })
                    },
                    AurSearch::NoHelper => UpdateStep::Continue(
                        Updater { phase: UpdatePhase::FlatpakProbe },
                    ),
                }
            },
            (UpdatePhase::AskUser(h), Reply::User(name)) => {
                match original_user(name) {
                    Some(user) => UpdateStep::Continue(
                        Updater { phase: UpdatePhase::AurUpgrade(h, user) },
                    ),
                    None => {
                        term.err("Cannot determine non-root user for AUR update; skipping.");
                        UpdateStep::Continue(Updater { phase: UpdatePhase::FlatpakProbe })
                    },
                }
            },
            (UpdatePhase::AurUpgrade(h, _), Reply::Ended(r)) => {
                cleaner::tell_outcome(
                    term,
                    &r,
                    text::concat3("AUR updated via ", h.name(), ".").as_str(),
                );
                UpdateStep::Continue(Updater { phase: UpdatePhase::FlatpakProbe })
            },
            (UpdatePhase::FlatpakProbe, Reply::Found(installed)) => {
                if installed {
                    term.info("Updating Flatpak applications...");
                    UpdateStep::Continue(Updater { phase: UpdatePhase::Flatpak })
                } else {
                    term.push_to_ui(100);
                    UpdateStep::Done(Ok(()))
                }
            },
            (UpdatePhase::Flatpak, Reply::Ended(r)) => {
                cleaner::tell_outcome(term, &r, "Flatpak applications updated.");
                term.push_to_ui(100);
                UpdateStep::Done(Ok(()))
            },
            (phase, _) => UpdateStep::Continue(Updater { phase }),
        }
    }
}

/// Whatever `SUDO_USER` holds, only a plain user name other than root's is ever used.
pub open spec fn update_wf(phase: UpdatePhaseView) -> bool {
    phase matches UpdatePhaseView::AurUpgrade(_, user) ==> plain_user(user) && user != "root"@
}

/// Every reply keeps an update well formed.
pub proof fn update_stays_well_formed(phase: UpdatePhaseView, reply: ReplyView, t: TermView)
    requires
        update_wf(phase),
    ensures
        update_next(phase, reply, t).0 matches UpdateStepView::Continue(next) ==> update_wf(next),
{
}

/// An update never fails as a whole, whatever the single steps come to.
pub proof fn update_never_fails(phase: UpdatePhaseView, reply: ReplyView, t: TermView)
    ensures
        update_next(phase, reply, t).0 matches UpdateStepView::Done(failure) ==> failure is None,
{
}

proof fn lemma_listing_adds(t: TermView, lines: Seq<Seq<char>>)
    ensures
        t.grew_to(listed(t, lines)),
    decreases lines.len(),
{
    if lines.len() > 0 {
        lemma_listing_adds(t, lines.drop_last());
        let before = listed(t, lines.drop_last());
        assert(before.grew_to(listed(t, lines)));
        crate::terminal::growth_is_transitive(t, before, listed(t, lines));
    }
}

/// No reply takes anything back from the log.
pub proof fn update_only_adds(phase: UpdatePhaseView, reply: ReplyView, t: TermView)
    ensures
        t.grew_to(update_next(phase, reply, t).1),
{
    if let (UpdatePhaseView::Check, ReplyView::Output(out)) = (phase, reply) {
        let updates = updates_of(out);
        let counted = t.info(text::decimal(updates.len()) + " package(s) to upgrade:"@);
        let lines = if updates.len() > LISTED {
            updates.take(LISTED as int)
        } else {
            updates
        };
        let told = listed(counted, lines);
        lemma_listing_adds(counted, lines);
        assert(t.grew_to(counted));
        crate::terminal::growth_is_transitive(t, counted, told);
        assert(told.grew_to(updates_told(t, updates)));
        crate::terminal::growth_is_transitive(t, told, updates_told(t, updates));
    }
}

/// A plain user name holds no character that means something to a shell: of the ASCII characters
/// only letters, digits, the underscore and the hyphen.
pub proof fn user_names_are_plain(name: Seq<char>)
    requires
        plain_user(name),
    ensures
        forall|i: int|
            0 <= i < name.len() && #[trigger] name[i] as u32 <= 0x7f ==> text::ascii_alphanumeric(
                name[i],
            ) || name[i] == '_' || name[i] == '-',
{
    assert forall|i: int| 0 <= i < name.len() && #[trigger] name[i] as u32 <= 0x7f implies (
    text::ascii_alphanumeric(name[i]) || name[i] == '_' || name[i] == '-') by {
        assert(user_char(name[i]));
    }
}

/// Every command of the update names one of a few binaries: never a shell, and never an AUR
/// helper, which is only run for a user through `sudo -u`.
pub proof fn update_runs_known_binaries(phase: UpdatePhaseView)
    ensures
        match update_request(phase) {
            RequestView::Capture(command) => command.bin == "checkupdates"@,
            RequestView::Stream { command, .. } => {
                &&& command.bin == "pacman"@ || command.bin == "flatpak"@ || command.bin == "sudo"@
                &&& command.bin == "sudo"@ ==> (phase matches UpdatePhaseView::AurUpgrade(h, user)
                    && command.args == seq!["-u"@, user, h.spec_name(), "-Su"@, "--noconfirm"@])
            },
            _ => true,
        },
{
    reveal_strlit("pacman");
    reveal_strlit("flatpak");
    reveal_strlit("sudo");
    assert("pacman"@.len() == 6 && "flatpak"@.len() == 7 && "sudo"@.len() == 4);
    if let UpdatePhaseView::AurUpgrade(h, user) = phase {
        assert(aur_upgrade(h, user).args == seq![
            "-u"@,
            user,
            h.spec_name(),
            "-Su"@,
            "--noconfirm"@,
        ]);
    }
}

/// How the system answers each request in the course of one update, and what the work itself logs.
pub struct UpdateWorld {
    pub work: spec_fn(RequestView, TermView) -> TermView,
    pub sync: Option<Seq<char>>,
    pub check: Option<CapturedView>,
    pub upgrade: Option<Seq<char>>,
    pub installed: spec_fn(AurHelper) -> bool,
    pub sudo_user: Option<Seq<char>>,
    pub aur_upgrade: Option<Seq<char>>,
    pub has_flatpak: bool,
    pub flatpak: Option<Seq<char>>,
}

impl UpdateWorld {
    /// The answer to the request of a phase.
    pub open spec fn reply(self, phase: UpdatePhaseView) -> ReplyView {
        match phase {
            UpdatePhaseView::Sync => ReplyView::Ended(self.sync),
            UpdatePhaseView::Check => ReplyView::Output(self.check),
            UpdatePhaseView::Upgrade => ReplyView::Ended(self.upgrade),
            UpdatePhaseView::Probe(h) => ReplyView::Found((self.installed)(h)),
            UpdatePhaseView::AskUser(_) => ReplyView::User(self.sudo_user),
            UpdatePhaseView::AurUpgrade(_, _) => ReplyView::Ended(self.aur_upgrade),
            UpdatePhaseView::FlatpakProbe => ReplyView::Found(self.has_flatpak),
            UpdatePhaseView::Flatpak => ReplyView::Ended(self.flatpak),
        }
    }

    /// The log once the work of a phase is done.
    pub open spec fn after(self, phase: UpdatePhaseView, t: TermView) -> TermView {
        operation::worked(self.work, update_request(phase), t)
    }

    /// The helper that is used, if there is one.
    pub open spec fn helper(self) -> Option<AurHelper> {
        aur::search_result(AurSearch::Ask(AurHelper::Paru), self.installed)
    }
}

/// How many steps are left at most.
pub open spec fn update_rank(phase: UpdatePhaseView) -> nat {
    match phase {
        UpdatePhaseView::Sync => 11,
        UpdatePhaseView::Check => 10,
        UpdatePhaseView::Upgrade => 9,
        UpdatePhaseView::Probe(h) => (8 - h.rank()) as nat,
        UpdatePhaseView::AskUser(_) => 4,
        UpdatePhaseView::AurUpgrade(_, _) => 3,
        UpdatePhaseView::FlatpakProbe => 2,
        UpdatePhaseView::Flatpak => 1,
    }
}

/// An update from some point to its end: what it asks of the system, in order, how it ends, and
/// the log by then, with what the work itself logs.
#[verifier::opaque]
pub open spec fn update_run(phase: UpdatePhaseView, w: UpdateWorld, t: TermView) -> (
    Seq<RequestView>,
    Option<Seq<char>>,
    TermView,
)
    decreases update_rank(phase),
{
    let (step, logged) = update_next(phase, w.reply(phase), w.after(phase, t));
    let asked = seq![update_request(phase)];
    match step {
        UpdateStepView::Continue(next) => {
            let (more, failure, end) = update_run(next, w, logged);
            (asked + more, failure, end)
        },
        UpdateStepView::Done(failure) => (asked, failure, logged),
    }
}

/// What the update asks for AUR packages once a helper is found.
pub open spec fn aur_requests(w: UpdateWorld) -> Seq<RequestView> {
    match w.helper() {
        Some(h) => match user_of(w.sudo_user) {
            Some(user) => seq![
                RequestView::LaunchingUser,
                RequestView::Stream { command: aur_upgrade(h, user), percent: 85 },
            ],
            None => seq![RequestView::LaunchingUser],
        },
        None => Seq::empty(),
    }
}

/// What the update asks for Flatpak applications.
pub open spec fn flatpak_requests(w: UpdateWorld) -> Seq<RequestView> {
    if w.has_flatpak {
        seq![RequestView::Which("flatpak"@), update_request(UpdatePhaseView::Flatpak)]
    } else {
        seq![RequestView::Which("flatpak"@)]
    }
}

/// What the update asks of the system, in order.
pub open spec fn update_requests(w: UpdateWorld) -> Seq<RequestView> {
    let begin = seq![
        update_request(UpdatePhaseView::Sync),
        update_request(UpdatePhaseView::Check),
    ];
    let upgrade = if updates_of(w.check).len() == 0 {
        Seq::empty()
    } else {
        seq![update_request(UpdatePhaseView::Upgrade)]
    };
    begin + upgrade + cleaner::probes_until(w.helper()) + aur_requests(w) + flatpak_requests(w)
}

/// The log once AUR packages are dealt with.
pub open spec fn aur_log(w: UpdateWorld, t: TermView) -> TermView {
    match w.helper() {
        Some(h) => {
            let begun = t.info("Updating AUR packages with "@ + h.spec_name() + "..."@);
            match user_of(w.sudo_user) {
                Some(user) => cleaner::outcome_told(
                    w.after(UpdatePhaseView::AurUpgrade(h, user), begun),
                    w.aur_upgrade,
                    "AUR updated via "@ + h.spec_name() + "."@,
                ),
                None => begun.err("Cannot determine non-root user for AUR update; skipping."@),
            }
        },
        None => t,
    }
}

/// The log once Flatpak applications are dealt with.
pub open spec fn flatpak_log(w: UpdateWorld, t: TermView) -> TermView {
    if w.has_flatpak {
        cleaner::outcome_told(
            w.after(UpdatePhaseView::Flatpak, t.info("Updating Flatpak applications..."@)),
            w.flatpak,
            "Flatpak applications updated."@,
        ).push(100)
    } else {
        t.push(100)
    }
}

/// The log of the update.
pub open spec fn update_log(w: UpdateWorld, t: TermView) -> TermView {
    let updates = updates_of(w.check);
    let synced = labelled_outcome_told(
        w.after(UpdatePhaseView::Sync, t),
        w.sync,
        "Databases synced."@,
        "Database sync failed: "@,
    );
    let upgraded = if updates.len() == 0 {
        synced.ok("System is already up to date!"@)
    } else {
        labelled_outcome_told(
            w.after(
                UpdatePhaseView::Upgrade,
                updates_told(synced, updates).push(30).info("Upgrading system packages..."@),
            ),
            w.upgrade,
            "System packages upgraded."@,
            "Upgrade error: "@,
        )
    };
    flatpak_log(w, aur_log(w, upgraded))
}

proof fn lemma_run_flatpak(w: UpdateWorld, t: TermView)
    ensures
        update_run(UpdatePhaseView::FlatpakProbe, w, t) == (
            flatpak_requests(w),
            None::<Seq<char>>,
            flatpak_log(w, t),
        ),
{
    reveal_with_fuel(update_run, 2);
    assert(update_run(UpdatePhaseView::FlatpakProbe, w, t).0 == flatpak_requests(w));
}

/// The update once a helper is found.
proof fn lemma_run_with_helper(h: AurHelper, w: UpdateWorld, t: TermView)
    requires
        w.helper() == Some(h),
    ensures
        update_run(
            UpdatePhaseView::AskUser(h),
            w,
            t.info("Updating AUR packages with "@ + h.spec_name() + "..."@),
        ) == (
            aur_requests(w) + flatpak_requests(w),
            None::<Seq<char>>,
            flatpak_log(w, aur_log(w, t)),
        ),
{
    reveal(update_run);
    let begun = t.info("Updating AUR packages with "@ + h.spec_name() + "..."@);
    let ask = seq![RequestView::LaunchingUser];
    let rest = flatpak_requests(w);
    let end = (rest, None::<Seq<char>>, flatpak_log(w, aur_log(w, t)));
    lemma_run_flatpak(w, aur_log(w, t));
    assert(update_run(UpdatePhaseView::FlatpakProbe, w, aur_log(w, t)) == end);
    match user_of(w.sudo_user) {
        Some(user) => {
            let up = seq![RequestView::Stream { command: aur_upgrade(h, user), percent: 85 }];
            let r = update_run(UpdatePhaseView::AurUpgrade(h, user), w, begun);
            assert(r == (up + rest, end.1, end.2));
            assert(update_run(UpdatePhaseView::AskUser(h), w, begun) == (ask + r.0, r.1, r.2));
            assert(ask + (up + rest) == aur_requests(w) + rest);
        },
        None => {
            assert(update_run(UpdatePhaseView::AskUser(h), w, begun) == (
                ask + rest,
                end.1,
                end.2,
            ));
            assert(ask == aur_requests(w));
        },
    }
}

/// One step of the search for a helper.
proof fn lemma_one_probe(h: AurHelper, w: UpdateWorld, t: TermView)
    ensures
        ({
            let (more, failure, end) = match aur::search_next(h, (w.installed)(h)) {
                AurSearch::Ask(next) => update_run(UpdatePhaseView::Probe(next), w, t),
                AurSearch::Found(found) => update_run(
                    UpdatePhaseView::AskUser(found),
                    w,
                    t.info("Updating AUR packages with "@ + found.spec_name() + "..."@),
                ),
                AurSearch::NoHelper => update_run(UpdatePhaseView::FlatpakProbe, w, t),
            };
            update_run(UpdatePhaseView::Probe(h), w, t) == (
                seq![RequestView::Which(h.spec_name())] + more,
                failure,
                end,
            )
        }),
{
    reveal(update_run);
}

/// The update from the search for a helper on.
proof fn lemma_run_from_probe(h: AurHelper, w: UpdateWorld, t: TermView)
    requires
        w.helper() == aur::search_result(AurSearch::Ask(h), w.installed),
    ensures
        w.helper() matches Some(f) ==> h.rank() <= f.rank(),
        update_run(UpdatePhaseView::Probe(h), w, t) == (
            cleaner::probes_until(w.helper()).skip(h.rank()) + aur_requests(w) + flatpak_requests(
                w,
            ),
            None::<Seq<char>>,
            flatpak_log(w, aur_log(w, t)),
        ),
    decreases 4 - h.rank(),
{
    let asked = seq![RequestView::Which(h.spec_name())];
    let probes = cleaner::probes_until(w.helper());
    let aur = aur_requests(w);
    let rest = flatpak_requests(w);
    let end = flatpak_log(w, aur_log(w, t));
    let found = aur::search_next(h, (w.installed)(h));
    assert(w.helper() == aur::search_result(found, w.installed));
    lemma_one_probe(h, w, t);
    match found {
        AurSearch::Found(_) => {
            assert(w.helper() == Some(h));
            lemma_run_with_helper(h, w, t);
            assert(update_run(UpdatePhaseView::Probe(h), w, t) == (
                asked + (aur + rest),
                None::<Seq<char>>,
                end,
            ));
            assert(probes.skip(h.rank()) == asked);
            assert(asked + (aur + rest) == asked + aur + rest);
        },
        AurSearch::Ask(next) => {
            lemma_run_from_probe(next, w, t);
            let later = probes.skip(next.rank());
            assert(update_run(UpdatePhaseView::Probe(h), w, t) == (
                asked + (later + aur + rest),
                None::<Seq<char>>,
                end,
            ));
            assert(probes.skip(h.rank()) == asked + later);
            assert(asked + (later + aur + rest) == (asked + later) + aur + rest);
        },
        AurSearch::NoHelper => {
            assert(w.helper() is None);
            lemma_run_flatpak(w, t);
            assert(update_run(UpdatePhaseView::Probe(h), w, t) == (
                asked + rest,
                None::<Seq<char>>,
                end,
            ));
            assert(probes.skip(h.rank()) == asked);
            assert(asked + rest == asked + aur + rest);
        },
    }
}

/// The whole of an update: what it asks of the system and in which order, that it ends in success,
/// and what it tells the user, all of it for every way in which the system may answer.
pub proof fn update_runs_to_its_end(w: UpdateWorld, t: TermView)
    ensures
        update_run(UpdatePhaseView::Sync, w, t) == (
            update_requests(w),
            None::<Seq<char>>,
            update_log(w, t),
        ),
{
    reveal(update_run);
    let updates = updates_of(w.check);
    let t1 = labelled_outcome_told(
        w.after(UpdatePhaseView::Sync, t),
        w.sync,
        "Databases synced."@,
        "Database sync failed: "@,
    );
    let a0 = seq![update_request(UpdatePhaseView::Sync)];
    let a1 = seq![update_request(UpdatePhaseView::Check)];
    let a2 = seq![update_request(UpdatePhaseView::Upgrade)];
    let r0 = update_run(UpdatePhaseView::Sync, w, t);
    let r1 = update_run(UpdatePhaseView::Check, w, t1);
    assert(r0 == (a0 + r1.0, r1.1, r1.2));
    let probes = cleaner::probes_until(w.helper());
    assert(probes.skip(0) == probes);
    if updates.len() == 0 {
        let t3 = t1.ok("System is already up to date!"@);
        lemma_run_from_probe(AurHelper::Paru, w, t3);
        let r3 = update_run(UpdatePhaseView::Probe(AurHelper::Paru), w, t3);
        assert(r1 == (a1 + r3.0, r3.1, r3.2));
        assert(r0.0 == update_requests(w));
    } else {
        let t2 = updates_told(t1, updates).push(30).info("Upgrading system packages..."@);
        let t3 = labelled_outcome_told(
            w.after(UpdatePhaseView::Upgrade, t2),
            w.upgrade,
            "System packages upgraded."@,
            "Upgrade error: "@,
        );
        lemma_run_from_probe(AurHelper::Paru, w, t3);
        let r2 = update_run(UpdatePhaseView::Upgrade, w, t2);
        let r3 = update_run(UpdatePhaseView::Probe(AurHelper::Paru), w, t3);
        assert(r2 == (a2 + r3.0, r3.1, r3.2));
        assert(r1 == (a1 + r2.0, r2.1, r2.2));
        assert(r0.0 == update_requests(w));
    }
}

/// An AUR helper only ever runs as the user that `SUDO_USER` names, and never as root.
pub proof fn aur_helper_runs_as_the_launching_user(w: UpdateWorld, i: int)
    requires
        0 <= i < update_requests(w).len(),
    ensures
        update_requests(w)[i] matches RequestView::Stream { command, .. } ==> {
            &&& forall|h: AurHelper| command.bin != #[trigger] h.spec_name()
            &&& command.bin == "sudo"@ ==> {
                &&& command.args[0] == "-u"@
                &&& Some(command.args[1]) == w.sudo_user
                &&& plain_user(command.args[1])
                &&& command.args[1] != "root"@
            }
        },
{
    reveal_strlit("pacman");
    reveal_strlit("flatpak");
    reveal_strlit("sudo");
    reveal_strlit("paru");
    reveal_strlit("yay");
    reveal_strlit("pikaur");
    reveal_strlit("trizen");
    assert("pacman"@.len() == 6 && "flatpak"@.len() == 7 && "sudo"@.len() == 4);
    assert("paru"@.len() == 4 && "yay"@.len() == 3 && "pikaur"@.len() == 6);
    assert("trizen"@.len() == 6);
    assert("pacman"@[1] == 'a' && "pikaur"@[1] == 'i' && "trizen"@[1] == 'r');
    assert("sudo"@[0] == 's' && "paru"@[0] == 'p');
    if let (Some(h), Some(user)) = (w.helper(), user_of(w.sudo_user)) {
        let args = aur_upgrade(h, user).args;
        assert(args[0] == "-u"@ && args[1] == user);
    }
}

/// A user name is taken over as it is, whatever its length, if it is not empty, not root's, and made
/// only of letters, digits, underscores and hyphens. No other text is taken for a user name.
pub proof fn plain_users_are_taken_as_they_are(name: Seq<char>)
    ensures
        name.len() > 0 && name != "root"@ && (forall|i: int|
            0 <= i < name.len() ==> text::is_alphanumeric(#[trigger] name[i]) || name[i] == '_'
                || name[i] == '-') ==> user_of(Some(name)) == Some(name),
        !(name.len() > 0 && name != "root"@ && (forall|i: int|
            0 <= i < name.len() ==> text::is_alphanumeric(#[trigger] name[i]) || name[i] == '_'
                || name[i] == '-')) ==> user_of(Some(name)) is None,
        user_of(None) is None,
{
    if forall|i: int|
        0 <= i < name.len() ==> text::is_alphanumeric(#[trigger] name[i]) || name[i] == '_'
            || name[i] == '-' {
        assert forall|i: int| 0 <= i < name.len() implies user_char(#[trigger] name[i]) by {}
    } else {
        let i = choose|i: int|
            0 <= i < name.len() && !(text::is_alphanumeric(#[trigger] name[i]) || name[i] == '_'
                || name[i] == '-');
        assert(!user_char(name[i]));
    }
}

/// Once a helper is found, AUR packages are upgraded with it as the user that `SUDO_USER` names, if
/// that is a plain name other than root's; else the user is told, and the update goes on.
pub proof fn the_helper_is_run_for_the_launching_user(h: AurHelper, name: Seq<char>, t: TermView)
    ensures
        ({
            let plain = name.len() > 0 && name != "root"@ && forall|i: int|
                0 <= i < name.len() ==> text::is_alphanumeric(#[trigger] name[i]) || name[i] == '_'
                    || name[i] == '-';
            let (step, logged) = update_next(
                UpdatePhaseView::AskUser(h),
                ReplyView::User(Some(name)),
                t,
            );
            &&& plain ==> logged == t && (step matches UpdateStepView::Continue(next)
                && update_request(next) == (RequestView::Stream {
                command: InvocationView {
                    bin: "sudo"@,
                    args: seq!["-u"@, name, h.spec_name(), "-Su"@, "--noconfirm"@],
                },
                percent: 85,
            }))
            &&& !plain ==> logged == t.err(
                "Cannot determine non-root user for AUR update; skipping."@,
            ) && (step matches UpdateStepView::Continue(next) && update_request(next)
                == RequestView::Which("flatpak"@))
        }),
{
    plain_users_are_taken_as_they_are(name);
    assert(aur_upgrade(h, name).args == seq!["-u"@, name, h.spec_name(), "-Su"@, "--noconfirm"@]);
}

/// The pending updates are the lines that were printed and hold more than white space, trimmed and
/// all of them, whatever the exit status; none if nothing could be run.
pub proof fn pending_updates_are_all_filled_lines(c: CapturedView)
    ensures
        updates_of(Some(c)) == text::filled_lines(text::lossy_text(c.stdout)),
        updates_of(None) == Seq::<Seq<char>>::empty(),
{
}

proof fn lemma_listed_entries(t: TermView, lines: Seq<Seq<char>>)
    ensures
        listed(t, lines).entries == t.entries + lines.map_values(
            |line: Seq<char>| crate::terminal::EntryView {
                text: "  "@ + line,
                level: "output"@,
            },
        ),
        listed(t, lines).frames == t.frames,
    decreases lines.len(),
{
    if lines.len() > 0 {
        lemma_listed_entries(t, lines.drop_last());
        assert(lines == lines.drop_last().push(lines.last()));
    }
}

/// The user is told how many updates are pending, sees the first thirty of them line by line, and is
/// told how many more there are, if any.
pub proof fn pending_updates_are_told(t: TermView, updates: Seq<Seq<char>>)
    ensures
        ({
            let n = updates.len();
            let shown = if n > 30 {
                updates.take(30)
            } else {
                updates
            };
            let counted = t.entries.push(
                crate::terminal::EntryView {
                    text: text::decimal(n) + " package(s) to upgrade:"@,
                    level: "info"@,
                },
            ) + shown.map_values(
                |line: Seq<char>| crate::terminal::EntryView {
                    text: "  "@ + line,
                    level: "output"@,
                },
            );
            &&& n <= 30 ==> updates_told(t, updates).entries == counted
            &&& n > 30 ==> updates_told(t, updates).entries == counted.push(
                crate::terminal::EntryView {
                    text: "  … and "@ + text::decimal((n - 30) as nat) + " more"@,
                    level: "output"@,
                },
            )
            &&& updates_told(t, updates).frames == t.frames
        }),
{
    let counted = t.info(text::decimal(updates.len()) + " package(s) to upgrade:"@);
    lemma_listed_entries(counted, updates);
    lemma_listed_entries(counted, updates.take(30));
}

/// What a whole update asks of the system, for every way in which the system answers: databases, the
/// list of updates, the upgrade if there are any, then the helper for the launching user, then
/// Flatpak. Every pending update is upgraded, and a helper or Flatpak is passed over only if it is
/// not there.
pub proof fn the_whole_update_is_asked_for(w: UpdateWorld, t: TermView)
    ensures
        ({
            let has = |h: AurHelper| (w.installed)(h);
            let helper = if has(AurHelper::Paru) {
                Some(("paru"@, 1int))
            } else if has(AurHelper::Yay) {
                Some(("yay"@, 2int))
            } else if has(AurHelper::Pikaur) {
                Some(("pikaur"@, 3int))
            } else if has(AurHelper::Trizen) {
                Some(("trizen"@, 4int))
            } else {
                None
            };
            let probes = seq![
                RequestView::Which("paru"@),
                RequestView::Which("yay"@),
                RequestView::Which("pikaur"@),
                RequestView::Which("trizen"@),
            ];
            let updates = match w.check {
                Some(c) => text::filled_lines(text::lossy_text(c.stdout)),
                None => Seq::empty(),
            };
            let upgrade = if updates.len() > 0 {
                seq![
                    RequestView::Stream {
                        command: InvocationView {
                            bin: "pacman"@,
                            args: seq!["-Su"@, "--noconfirm"@],
                        },
                        percent: 65,
                    },
                ]
            } else {
                Seq::empty()
            };
            let aur = match (helper, user_of(w.sudo_user)) {
                (Some((bin, n)), Some(user)) => probes.take(n) + seq![
                    RequestView::LaunchingUser,
                    RequestView::Stream {
                        command: InvocationView {
                            bin: "sudo"@,
                            args: seq!["-u"@, user, bin, "-Su"@, "--noconfirm"@],
                        },
                        percent: 85,
                    },
                ],
                (Some((_, n)), None) => probes.take(n) + seq![RequestView::LaunchingUser],
                (None, _) => probes,
            };
            let flatpak = if w.has_flatpak {
                seq![
                    RequestView::Which("flatpak"@),
                    RequestView::Stream {
                        command: InvocationView {
                            bin: "flatpak"@,
                            args: seq!["update"@, "--noninteractive"@],
                        },
                        percent: 95,
                    },
                ]
            } else {
                seq![RequestView::Which("flatpak"@)]
            };
            &&& update_run(UpdatePhaseView::Sync, w, t).0 == seq![
                RequestView::Stream {
                    command: InvocationView { bin: "pacman"@, args: seq!["-Sy"@] },
                    percent: 10,
                },
                RequestView::Capture(
                    InvocationView { bin: "checkupdates"@, args: Seq::empty() },
                ),
            ] + upgrade + aur + flatpak
            &&& update_run(UpdatePhaseView::Sync, w, t).1 is None
        }),
{
    update_runs_to_its_end(w, t);
    aur::helpers_are_preferred_in_order(w.installed);
    let all = seq![
        RequestView::Which("paru"@),
        RequestView::Which("yay"@),
        RequestView::Which("pikaur"@),
        RequestView::Which("trizen"@),
    ];
    assert(InvocationView::of("pacman"@).arg("-Sy"@).args == seq!["-Sy"@]);
    assert(InvocationView::of("pacman"@).arg("-Su"@).arg("--noconfirm"@).args == seq![
        "-Su"@,
        "--noconfirm"@,
    ]);
    assert(InvocationView::of("flatpak"@).arg("update"@).arg("--noninteractive"@).args == seq![
        "update"@,
        "--noninteractive"@,
    ]);
    if let (Some(h), Some(user)) = (w.helper(), user_of(w.sudo_user)) {
        assert(aur_upgrade(h, user).args == seq![
            "-u"@,
            user,
            h.spec_name(),
            "-Su"@,
            "--noconfirm"@,
        ]);
    }
    let probes = cleaner::probes_until(w.helper());
    assert(probes == match w.helper() {
        Some(h) => all.take(h.rank() + 1),
        None => all,
    });
    let upgrade = if updates_of(w.check).len() == 0 {
        Seq::empty()
    } else {
        seq![update_request(UpdatePhaseView::Upgrade)]
    };
    let first = seq![
        update_request(UpdatePhaseView::Sync),
        update_request(UpdatePhaseView::Check),
    ];
    assert(first + upgrade + probes + aur_requests(w) + flatpak_requests(w) == first + upgrade + (
    probes + aur_requests(w)) + flatpak_requests(w));
    if w.helper() is None {
        assert(probes + aur_requests(w) == probes);
    }
}

/// What a whole update tells the user, in every way in which the system answers: what each step came
/// to, in the words of its failure if it failed, and what the commands printed in between.
pub proof fn the_whole_update_is_told(w: UpdateWorld, t: TermView)
    ensures
        ({
            let has = |h: AurHelper| (w.installed)(h);
            let after = |bin: Seq<char>, args: Seq<Seq<char>>, percent: u8, t: TermView|
                operation::worked(
                    w.work,
                    RequestView::Stream { command: InvocationView { bin, args }, percent },
                    t,
                );
            let outcome = |
                t: TermView,
                failure: Option<Seq<char>>,
                success: Seq<char>,
                label: Seq<char>,
            |
                match failure {
                    Some(e) => t.err(label + e),
                    None => t.ok(success),
                };
            let none = Seq::<char>::empty();
            let updates = match w.check {
                Some(c) => text::filled_lines(text::lossy_text(c.stdout)),
                None => Seq::empty(),
            };
            let synced = outcome(
                after("pacman"@, seq!["-Sy"@], 10, t),
                w.sync,
                "Databases synced."@,
                "Database sync failed: "@,
            );
            let upgraded = if updates.len() == 0 {
                synced.ok("System is already up to date!"@)
            } else {
                outcome(
                    after(
                        "pacman"@,
                        seq!["-Su"@, "--noconfirm"@],
                        65,
                        updates_told(synced, updates).push(30).info(
                            "Upgrading system packages..."@,
                        ),
                    ),
                    w.upgrade,
                    "System packages upgraded."@,
                    "Upgrade error: "@,
                )
            };
            let helper = if has(AurHelper::Paru) {
                Some("paru"@)
            } else if has(AurHelper::Yay) {
                Some("yay"@)
            } else if has(AurHelper::Pikaur) {
                Some("pikaur"@)
            } else if has(AurHelper::Trizen) {
                Some("trizen"@)
            } else {
                None
            };
            let aur = match helper {
                Some(bin) => {
                    let begun = upgraded.info("Updating AUR packages with "@ + bin + "..."@);
                    match user_of(w.sudo_user) {
                        Some(user) => outcome(
                            after(
                                "sudo"@,
                                seq!["-u"@, user, bin, "-Su"@, "--noconfirm"@],
                                85,
                                begun,
                            ),
                            w.aur_upgrade,
                            "AUR updated via "@ + bin + "."@,
                            none,
                        ),
                        None => begun.err(
                            "Cannot determine non-root user for AUR update; skipping."@,
                        ),
                    }
                },
                None => upgraded,
            };
            let flatpak = if w.has_flatpak {
                outcome(
                    after(
                        "flatpak"@,
                        seq!["update"@, "--noninteractive"@],
                        95,
                        aur.info("Updating Flatpak applications..."@),
                    ),
                    w.flatpak,
                    "Flatpak applications updated."@,
                    none,
                )
            } else {
                aur
            };
            update_run(UpdatePhaseView::Sync, w, t).2 == flatpak.push(100)
        }),
{
    update_runs_to_its_end(w, t);
    aur::helpers_are_preferred_in_order(w.installed);
    assert(InvocationView::of("pacman"@).arg("-Sy"@).args == seq!["-Sy"@]);
    assert(InvocationView::of("pacman"@).arg("-Su"@).arg("--noconfirm"@).args == seq![
        "-Su"@,
        "--noconfirm"@,
    ]);
    assert(InvocationView::of("flatpak"@).arg("update"@).arg("--noninteractive"@).args == seq![
        "update"@,
        "--noninteractive"@,
    ]);
    if let (Some(h), Some(user)) = (w.helper(), user_of(w.sudo_user)) {
        assert(aur_upgrade(h, user).args == seq![
            "-u"@,
            user,
            h.spec_name(),
            "-Su"@,
            "--noconfirm"@,
        ]);
    }
    if let Some(e) = w.aur_upgrade {
        assert(Seq::<char>::empty() + e == e);
    }
    if let Some(e) = w.flatpak {
        assert(Seq::<char>::empty() + e == e);
    }
}

/// An update begins with its title and the first step.
pub proof fn an_update_begins_with_its_title(t: TermView)
    ensures
        update_begun(t) == t.info("══ System Update ════════════════════"@).push(5).info(
            "Syncing package databases..."@,
        ),
{
}

} // verus!
