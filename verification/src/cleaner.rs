//! The cleaning operations: what they do one after another, and what they tell the user.
use crate::aur;
use crate::aur::{AurHelper, AurSearch};
use crate::command::{Captured, CapturedView, Invocation, InvocationView};
use crate::operation;
use crate::operation::{Reply, ReplyView, Request, RequestView};
use crate::terminal::{Term, TermView};
use crate::text;
use vstd::prelude::*;
use vstd::string::*;

verus! {

/// How a cleaning operation ends.
pub type CleanResult = Result<(), String>;

/// A character that package names are made of.
pub open spec fn package_char(c: char) -> bool {
    text::is_alphanumeric(c) || c == '-' || c == '_' || c == '.' || c == '+' || c == '@'
}

/// A text that can be the name of a package.
pub open spec fn package_name(s: Seq<char>) -> bool {
    s.len() > 0 && forall|i: int| 0 <= i < s.len() ==> package_char(#[trigger] s[i])
}

/// The package names in a list with one name to a line; lines that hold none are left out.
pub open spec fn orphans_in(list: Seq<char>) -> Seq<Seq<char>> {
    text::filled_lines(list).filter(|name: Seq<char>| package_name(name))
}

/// The orphaned packages that the package manager named. It names none if it fails, and that is
/// how it answers when there are none.
pub open spec fn orphans_of(out: Option<CapturedView>) -> Seq<Seq<char>> {
    match out {
        Some(c) => if c.success {
            orphans_in(text::lossy_text(c.stdout))
        } else {
            Seq::empty()
        },
        None => Seq::empty(),
    }
}

/// Whether `s` can be the name of a package.
pub fn is_package_name(s: &str) -> (r: bool)
    ensures
        r == package_name(s@),
{
    let cs = text::chars_of(s);
    for i in 0..cs.len()
        invariant
            cs@ == s@,
            forall|k: int| 0 <= k < i ==> package_char(#[trigger] s@[k]),
    {
        let c = cs[i];
        if !(c.is_alphanumeric() || c == '-' || c == '_' || c == '.' || c == '+' || c == '@') {
            assert(!package_char(s@[i as int]));
            return false;
        }
    }
    cs.len() > 0
}

/// The package names in a list with one name to a line.
pub fn orphan_names(list: &str) -> (r: Vec<String>)
    ensures
        r.deep_view() == orphans_in(list@),
{
    let all = text::nonblank_lines(list);
    let ghost filled = text::filled_lines(list@);
    let ghost named = |name: Seq<char>| package_name(name);
    let mut r: Vec<String> = Vec::new();
    reveal(Seq::filter);
    assert(r.deep_view() == filled.take(0).filter(named));
    for i in 0..all.len()
        invariant
            all.deep_view() == filled,
            named == (|name: Seq<char>| package_name(name)),
            r.deep_view() == filled.take(i as int).filter(named),
    {
        let name = all[i].clone();
        let ghost before = r.deep_view();
        proof {
            assert(filled[i as int] == name@);
            assert(filled.take(i + 1) == filled.take(i as int).push(name@));
            filled.take(i as int).lemma_filter_push(name@, named);
        }
        if is_package_name(name.as_str()) {
            r.push(name);
            assert(r.deep_view() == before.push(name@));
        }
    }
    assert(filled.take(all.len() as int) == filled);
    r
}

/// The orphaned packages that `pacman -Qtdq` named.
pub fn list_orphans(out: &Option<Captured>) -> (r: Vec<String>)
    ensures
        r.deep_view() == orphans_of(crate::command::capture(*out)),
{
    match out {
        Some(c) => {
            if c.success {
                orphan_names(text::from_utf8_lossy(c.stdout.as_slice()).as_str())
            } else {
                let r: Vec<String> = Vec::new();
                assert(r.deep_view() == Seq::<Seq<char>>::empty());
                r
            }
        },
        None => {
            let r: Vec<String> = Vec::new();
            assert(r.deep_view() == Seq::<Seq<char>>::empty());
            r
        },
    }
}

/// The step at which a cleaning operation waits for the system.
pub enum CleanPhase {
    Orphans,
    Removing(Vec<String>),
    CacheOld,
    CacheUninstalled,
    Tmp,
    Journal,
    Browsers,
    Pycache,
    Thumbnails,
    ResetFailed,
    Probe(AurHelper),
    AurCache(AurHelper),
}

/// The step at which a cleaning operation waits, as a mathematical value.
pub enum CleanPhaseView {
    Orphans,
    Removing(Seq<Seq<char>>),
    CacheOld,
    CacheUninstalled,
    Tmp,
    Journal,
    Browsers,
    Pycache,
    Thumbnails,
    ResetFailed,
    Probe(AurHelper),
    AurCache(AurHelper),
}

impl View for CleanPhase {
    type V = CleanPhaseView;

    open spec fn view(&self) -> CleanPhaseView {
        match *self {
            CleanPhase::Orphans => CleanPhaseView::Orphans,
            CleanPhase::Removing(names) => CleanPhaseView::Removing(names.deep_view()),
            CleanPhase::CacheOld => CleanPhaseView::CacheOld,
            CleanPhase::CacheUninstalled => CleanPhaseView::CacheUninstalled,
            CleanPhase::Tmp => CleanPhaseView::Tmp,
            CleanPhase::Journal => CleanPhaseView::Journal,
            CleanPhase::Browsers => CleanPhaseView::Browsers,
            CleanPhase::Pycache => CleanPhaseView::Pycache,
            CleanPhase::Thumbnails => CleanPhaseView::Thumbnails,
            CleanPhase::ResetFailed => CleanPhaseView::ResetFailed,
            CleanPhase::Probe(h) => CleanPhaseView::Probe(h),
            CleanPhase::AurCache(h) => CleanPhaseView::AurCache(h),
        }
    }
}

/// A cleaning operation under way.
pub struct Cleaner {
    full: bool,
    failed: Option<String>,
    phase: CleanPhase,
}

/// A cleaning operation under way, as a mathematical value.
pub struct CleanView {
    /// Whether the extended part follows.
    pub full: bool,
    /// The first failure of a step so far.
    pub failed: Option<Seq<char>>,
    pub phase: CleanPhaseView,
}

impl View for Cleaner {
    type V = CleanView;

    closed spec fn view(&self) -> CleanView {
        CleanView { full: self.full, failed: text::text_in(self.failed), phase: self.phase@ }
    }
}

/// A cleaning operation goes on or has ended.
pub enum CleanStep {
    Continue(Cleaner),
    Done(CleanResult),
}

/// A cleaning operation that goes on or has ended, as a mathematical value.
pub enum CleanStepView {
    Continue(CleanView),
    /// `None` for success, else what went wrong.
    Done(Option<Seq<char>>),
}

impl View for CleanStep {
    type V = CleanStepView;

    open spec fn view(&self) -> CleanStepView {
        match *self {
            CleanStep::Continue(c) => CleanStepView::Continue(c@),
            CleanStep::Done(r) => CleanStepView::Done(crate::command::failure(r)),
        }
    }
}

/// What the operation asks of the system at each step.
pub open spec fn clean_request(phase: CleanPhaseView) -> RequestView {
    match phase {
        CleanPhaseView::Orphans => RequestView::Capture(
            InvocationView::of("pacman"@).arg("-Qtdq"@),
        ),
        CleanPhaseView::Removing(names) => RequestView::Stream {
            command: InvocationView::of("pacman"@).arg("-Rns"@).arg("--noconfirm"@).arg("--"@).args(
                names,
            ),
            percent: 20,
        },
        CleanPhaseView::CacheOld => RequestView::Stream {
            command: InvocationView::of("paccache"@).arg("-rk1"@),
            percent: 45,
        },
        CleanPhaseView::CacheUninstalled => RequestView::Stream {
            command: InvocationView::of("paccache"@).arg("-ruk0"@),
            percent: 55,
        },
        CleanPhaseView::Tmp => RequestView::ClearTmp,
        CleanPhaseView::Journal => RequestView::Stream {
            command: InvocationView::of("journalctl"@).arg("--vacuum-time=7d"@),
            percent: 20,
        },
        CleanPhaseView::Browsers => RequestView::BrowserCaches,
        CleanPhaseView::Pycache => RequestView::Pycache,
        CleanPhaseView::Thumbnails => RequestView::Thumbnails,
        CleanPhaseView::ResetFailed => RequestView::Stream {
            command: InvocationView::of("systemctl"@).arg("reset-failed"@),
            percent: 80,
        },
        CleanPhaseView::Probe(h) => RequestView::Which(h.spec_name()),
        CleanPhaseView::AurCache(h) => RequestView::Stream {
            command: InvocationView::of(h.spec_name()).arg("-Sc"@).arg("--noconfirm"@),
            percent: 92,
        },
    }
}

/// The first of two failures, as far as there is one.
pub open spec fn first_of(a: Option<Seq<char>>, b: Option<Seq<char>>) -> Option<Seq<char>> {
    if a is Some {
        a
    } else {
        b
    }
}

/// The beginning of a cleaning operation.
pub open spec fn clean_start(full: bool) -> CleanView {
    CleanView { full, failed: None, phase: CleanPhaseView::Orphans }
}

/// A failure goes into the log, a success does not.
pub open spec fn failure_told(t: TermView, failure: Option<Seq<char>>) -> TermView {
    match failure {
        Some(e) => t.err(e),
        None => t,
    }
}

/// A success goes into the log in the given words, a failure in its own.
pub open spec fn outcome_told(
    t: TermView,
    failure: Option<Seq<char>>,
    success: Seq<char>,
) -> TermView {
    match failure {
        Some(e) => t.err(e),
        None => t.ok(success),
    }
}

/// The log at the start of the quick clean.
pub open spec fn quick_begun(t: TermView) -> TermView {
    t.info("══ Quick Clean ══════════════════════"@).push(5).info(
        "Checking for orphan packages..."@,
    ).push(10)
}

/// The log once the orphans are dealt with.
pub open spec fn cache_begun(t: TermView) -> TermView {
    t.push(30).info("Cleaning package cache (keeping 1 version)..."@)
}

/// The log at the start of the extended part.
pub open spec fn extended_begun(t: TermView) -> TermView {
    t.info("══ Full Clean (extended) ════════════"@).push(5).info(
        "Vacuuming systemd journal (keep 7 days)..."@,
    )
}

/// What a reply leads to: the operation goes on or ends, and the log grows. A step that fails does
/// not keep the following ones from being run, but the operation then ends with the first failure.
/// Only the reset of systemd's failed units is not fatal: its failure is told, and that is all. A
/// reply that does not answer the request changes nothing.
pub open spec fn clean_next(c: CleanView, reply: ReplyView, t: TermView) -> (
    CleanStepView,
    TermView,
) {
    let go = |phase: CleanPhaseView| CleanStepView::Continue(CleanView { phase, ..c });
    let go_after = |r: Option<Seq<char>>, phase: CleanPhaseView|
        CleanStepView::Continue(CleanView { failed: first_of(c.failed, r), phase, ..c });
    match (c.phase, reply) {
        (CleanPhaseView::Orphans, ReplyView::Output(out)) => {
            let names = orphans_of(out);
            if names.len() == 0 {
                (go(CleanPhaseView::CacheOld), cache_begun(t.ok("No orphan packages found."@)))
            } else {
                (
                    go(CleanPhaseView::Removing(names)),
                    t.info(
                        "Found "@ + text::decimal(names.len()) + " orphan(s) — removing..."@,
                    ),
                )
            }
        },
        (CleanPhaseView::Removing(names), ReplyView::Ended(r)) => (
            go_after(r, CleanPhaseView::CacheOld),
            cache_begun(
                outcome_told(t, r, "Removed "@ + text::decimal(names.len()) + " orphan(s)."@),
            ),
        ),
        (CleanPhaseView::CacheOld, ReplyView::Ended(r)) => (
            go_after(r, CleanPhaseView::CacheUninstalled),
            failure_told(t, r),
        ),
        (CleanPhaseView::CacheUninstalled, ReplyView::Ended(r)) => (
            go_after(r, CleanPhaseView::Tmp),
            failure_told(t, r).ok("Package cache cleaned."@).push(60).info("Clearing /tmp..."@),
        ),
        (CleanPhaseView::Tmp, ReplyView::Done) => {
            let cleared = t.ok("Temporary files cleared."@).push(100);
            if c.full {
                (go(CleanPhaseView::Journal), extended_begun(cleared))
            } else {
                (CleanStepView::Done(c.failed), cleared)
            }
        },
        (CleanPhaseView::Journal, ReplyView::Ended(r)) => (
            go_after(r, CleanPhaseView::Browsers),
            outcome_told(t, r, "Journal cleaned."@).info("Cleaning browser caches..."@),
        ),
        (CleanPhaseView::Browsers, ReplyView::Done) => (
            go(CleanPhaseView::Pycache),
            t.ok("Browser caches cleared."@).push(45).info("Cleaning Python bytecode caches..."@),
        ),
        (CleanPhaseView::Pycache, ReplyView::Done) => (
            go(CleanPhaseView::Thumbnails),
            t.ok("Python caches cleared."@).push(60).info("Clearing thumbnail caches..."@),
        ),
        (CleanPhaseView::Thumbnails, ReplyView::Done) => (
            go(CleanPhaseView::ResetFailed),
            t.ok("Thumbnails cleared."@).push(72),
        ),
        (CleanPhaseView::ResetFailed, ReplyView::Ended(r)) => (
            go(CleanPhaseView::Probe(AurHelper::Paru)),
            outcome_told(t, r, "systemd reset-failed done."@),
        ),
        (CleanPhaseView::Probe(h), ReplyView::Found(installed)) => match aur::search_next(
            h,
            installed,
        ) {
            AurSearch::Ask(next) => (go(CleanPhaseView::Probe(next)), t),
            AurSearch::Found(found) => (
                go(CleanPhaseView::AurCache(found)),
                t.info("Cleaning "@ + found.spec_name() + " cache..."@),
            ),
            AurSearch::NoHelper => (CleanStepView::Done(c.failed), t.push(100)),
        },
        (CleanPhaseView::AurCache(h), ReplyView::Ended(r)) => (
            CleanStepView::Done(first_of(c.failed, r)),
            outcome_told(t, r, h.spec_name() + " cache cleaned."@).push(100),
        ),
        _ => (CleanStepView::Continue(c), t),
    }
}

/// Logs a failure.
pub(crate) fn tell_failure(term: &mut Term, r: &Result<(), String>)
    ensures
        final(term)@ == failure_told(old(term)@, crate::command::failure(*r)),
{
    match r {
        Ok(_) => {},
        Err(e) => term.err(e.as_str()),
    }
}

/// Logs a success in the given words, a failure in its own.
pub(crate) fn tell_outcome(term: &mut Term, r: &Result<(), String>, success: &str)
    ensures
        final(term)@ == outcome_told(old(term)@, crate::command::failure(*r), success@),
{
    match r {
        Ok(_) => term.ok(success),
        Err(e) => term.err(e.as_str()),
    }
}

/// The first failure, once the end of one more step is known.
fn note_failure(failed: Option<String>, r: Result<(), String>) -> (n: Option<String>)
    ensures
        text::text_in(n) == first_of(text::text_in(failed), crate::command::failure(r)),
{
    match (failed, r) {
        (Some(e), _) => Some(e),
        (None, Ok(_)) => None,
        (None, Err(e)) => Some(e),
    }
}

/// How an operation ends with the given first failure.
fn clean_result(failed: Option<String>) -> (r: CleanResult)
    ensures
        crate::command::failure(r) == text::text_in(failed),
{
    match failed {
        Some(e) => Err(e),
        None => Ok(()),
    }
}

fn begin_quick(term: &mut Term)
    ensures
        final(term)@ == quick_begun(old(term)@),
{
    term.info("══ Quick Clean ══════════════════════");
    term.push_to_ui(5);
    term.info("Checking for orphan packages...");
    term.push_to_ui(10);
}

fn begin_cache(term: &mut Term)
    ensures
        final(term)@ == cache_begun(old(term)@),
{
    term.push_to_ui(30);
    term.info("Cleaning package cache (keeping 1 version)...");
}

fn begin_extended(term: &mut Term)
    ensures
        final(term)@ == extended_begun(old(term)@),
{
    term.info("══ Full Clean (extended) ════════════");
    term.push_to_ui(5);
    term.info("Vacuuming systemd journal (keep 7 days)...");
}

/// Begins the quick clean: orphaned packages, package cache, temporary files.
pub fn quick_clean(term: &mut Term) -> (r: Cleaner)
    ensures
        r@ == clean_start(false),
        final(term)@ == quick_begun(old(term)@),
{
    begin_quick(term);
    Cleaner { full: false, failed: None, phase: CleanPhase::Orphans }
}

/// Begins the full clean: all of the quick clean, then the journal and the caches of browsers,
/// Python, thumbnails and the AUR helper.
pub fn full_clean(term: &mut Term) -> (r: Cleaner)
    ensures
        r@ == clean_start(true),
        final(term)@ == quick_begun(old(term)@),
{
    begin_quick(term);
    Cleaner { full: true, failed: None, phase: CleanPhase::Orphans }
}

impl Cleaner {
    /// What the operation waits for.
    pub fn request(&self) -> (r: Request)
        ensures
            r@ == clean_request(self@.phase),
    {
        match &self.phase {
            CleanPhase::Orphans => Request::Capture(Invocation::new("pacman").arg("-Qtdq")),
            CleanPhase::Removing(names) => Request::Stream {
                command: Invocation::new("pacman").arg("-Rns").arg("--noconfirm").arg("--").args(
                    names,
                ),
                percent: 20,
            },
            CleanPhase::CacheOld => Request::Stream {
                command: Invocation::new("paccache").arg("-rk1"),
                percent: 45,
            },
            CleanPhase::CacheUninstalled => Request::Stream {
                command: Invocation::new("paccache").arg("-ruk0"),
                percent: 55,
            },
            CleanPhase::Tmp => Request::ClearTmp,
            CleanPhase::Journal => Request::Stream {
                command: Invocation::new("journalctl").arg("--vacuum-time=7d"),
                percent: 20,
            },
            CleanPhase::Browsers => Request::BrowserCaches,
            CleanPhase::Pycache => Request::Pycache,
            CleanPhase::Thumbnails => Request::Thumbnails,
            CleanPhase::ResetFailed => Request::Stream {
                command: Invocation::new("systemctl").arg("reset-failed"),
                percent: 80,
            },
            CleanPhase::Probe(h) => Request::Which(h.name().to_owned()),
            CleanPhase::AurCache(h) => Request::Stream {
                command: Invocation::new(h.name()).arg("-Sc").arg("--noconfirm"),
                percent: 92,
            },
        }
    }

    /// Takes note of the answer to the request.
    pub fn resume(self, reply: Reply, term: &mut Term) -> (r: CleanStep)
        ensures
            (r@, final(term)@) == clean_next(self@, reply@, old(term)@),
    {
        let Cleaner { full, failed, phase } = self;
        match (phase, reply) {
            (CleanPhase::Orphans, Reply::Output(out)) => {
                let names = list_orphans(&out);
                let n: u64 = names.len() as u64;
                if names.len() == 0 {
                    term.ok("No orphan packages found.");
                    begin_cache(term);
                    CleanStep::Continue(Cleaner { full, failed, phase: CleanPhase::CacheOld })
                } else {
                    let count = text::decimal_text(n);
                    term.info(
                        text::concat3(
                            "Found ",
                            count.as_str(),
                            " orphan(s) — removing...",
                        ).as_str(),
                    );
                    CleanStep::Continue(Cleaner { full, failed, phase: CleanPhase::Removing(names) })
                }
            },
            (CleanPhase::Removing(names), Reply::Ended(r)) => {
                let n: u64 = names.len() as u64;
                let count = text::decimal_text(n);
                tell_outcome(
                    term,
                    &r,
                    text::concat3("Removed ", count.as_str(), " orphan(s).").as_str(),
                );
                begin_cache(term);
                CleanStep::Continue(
                    Cleaner {
                        full,
                        failed: note_failure(failed, r),
                        phase: CleanPhase::CacheOld,
                    },
                )
            },
            (CleanPhase::CacheOld, Reply::Ended(r)) => {
                tell_failure(term, &r);
                CleanStep::Continue(
                    Cleaner {
                        full,
                        failed: note_failure(failed, r),
                        phase: CleanPhase::CacheUninstalled,
                    },
                )
            },
            (CleanPhase::CacheUninstalled, Reply::Ended(r)) => {
                tell_failure(term, &r);
                term.ok("Package cache cleaned.");
                term.push_to_ui(60);
                term.info("Clearing /tmp...");
                CleanStep::Continue(
                    Cleaner {
                        full,
                        failed: note_failure(failed, r),
                        phase: CleanPhase::Tmp,
                    },
                )
            },
            (CleanPhase::Tmp, Reply::Done) => {
                term.ok("Temporary files cleared.");
                term.push_to_ui(100);
                if full {
                    begin_extended(term);
                    CleanStep::Continue(Cleaner { full, failed, phase: CleanPhase::Journal })
                } else {
                    CleanStep::Done(clean_result(failed))
                }
            },
            (CleanPhase::Journal, Reply::Ended(r)) => {
                tell_outcome(term, &r, "Journal cleaned.");
                term.info("Cleaning browser caches...");
                CleanStep::Continue(
                    Cleaner {
                        full,
                        failed: note_failure(failed, r),
                        phase: CleanPhase::Browsers,
                    },
                )
            },
            (CleanPhase::Browsers, Reply::Done) => {
                term.ok("Browser caches cleared.");
                term.push_to_ui(45);
                term.info("Cleaning Python bytecode caches...");
                CleanStep::Continue(Cleaner { full, failed, phase: CleanPhase::Pycache })
            },
            (CleanPhase::Pycache, Reply::Done) => {
                term.ok("Python caches cleared.");
                term.push_to_ui(60);
                term.info("Clearing thumbnail caches...");
                CleanStep::Continue(Cleaner { full, failed, phase: CleanPhase::Thumbnails })
            },
            (CleanPhase::Thumbnails, Reply::Done) => {
                term.ok("Thumbnails cleared.");
                term.push_to_ui(72);
                CleanStep::Continue(Cleaner { full, failed, phase: CleanPhase::ResetFailed })
            },
            (CleanPhase::ResetFailed, Reply::Ended(r)) => {
                tell_outcome(term, &r, "systemd reset-failed done.");
                CleanStep::Continue(Cleaner { full, failed, phase: CleanPhase::Probe(AurHelper::Paru) })
            },
            (CleanPhase::Probe(h), Reply::Found(installed)) => {
                match aur::detect_aur_helper(h, installed) {
                    AurSearch::Ask(next) => CleanStep::Continue(
                        Cleaner { full, failed, phase: CleanPhase::Probe(next) },
                    ),
                    AurSearch::Found(found) => {
                        term.info(text::concat3("Cleaning ", found.name(), " cache...").as_str());
                        CleanStep::Continue(Cleaner { full, failed, phase: CleanPhase::AurCache(found) })
                    },
                    AurSearch::NoHelper => {
                        term.push_to_ui(100);
                        CleanStep::Done(clean_result(failed))
                    },
                }
            },
            (CleanPhase::AurCache(h), Reply::Ended(r)) => {
                tell_outcome(term, &r, text::concat2(h.name(), " cache cleaned.").as_str());
                term.push_to_ui(100);
                CleanStep::Done(clean_result(note_failure(failed, r)))
            },
            (phase, _) => CleanStep::Continue(Cleaner { full, failed, phase }),
        }
    }
}

impl CleanView {
    /// Only package names are ever up for removal, and the extended part belongs to the full clean.
    pub open spec fn wf(self) -> bool {
        match self.phase {
            CleanPhaseView::Removing(names) => names.len() > 0 && forall|i: int|
                0 <= i < names.len() ==> package_name(#[trigger] names[i]),
            CleanPhaseView::Orphans
            | CleanPhaseView::CacheOld
            | CleanPhaseView::CacheUninstalled
            | CleanPhaseView::Tmp => true,
            _ => self.full,
        }
    }
}

/// Whatever the package manager printed, only package names come out of it.
pub proof fn orphans_are_package_names(out: Option<CapturedView>)
    ensures
        forall|i: int| 0 <= i < orphans_of(out).len() ==> package_name(#[trigger] orphans_of(out)[i]),
{
    if let Some(c) = out {
        if c.success {
            let lines = text::filled_lines(text::lossy_text(c.stdout));
            let named = |name: Seq<char>| package_name(name);
            assert forall|i: int| 0 <= i < orphans_of(out).len() implies package_name(
                #[trigger] orphans_of(out)[i],
            ) by {
                lines.lemma_filter_pred(named, i);
            }
        }
    }
}

/// Every reply keeps a cleaning operation well formed.
pub proof fn cleaning_stays_well_formed(c: CleanView, reply: ReplyView, t: TermView)
    requires
        c.wf(),
    ensures
        clean_next(c, reply, t).0 matches CleanStepView::Continue(next) ==> next.wf(),
{
    if let ReplyView::Output(out) = reply {
        orphans_are_package_names(out);
    }
}

/// No reply takes anything back from the log.
pub proof fn cleaning_only_adds(c: CleanView, reply: ReplyView, t: TermView)
    ensures
        t.grew_to(clean_next(c, reply, t).1),
{
}

/// A package name holds no character that means something to a shell: of the ASCII characters
/// only letters, digits and `-_.+@`.
pub proof fn package_names_are_plain(name: Seq<char>)
    requires
        package_name(name),
    ensures
        forall|i: int|
            0 <= i < name.len() && #[trigger] name[i] as u32 <= 0x7f ==> text::ascii_alphanumeric(
                name[i],
            ) || name[i] == '-' || name[i] == '_' || name[i] == '.' || name[i] == '+' || name[i]
                == '@',
{
    assert forall|i: int| 0 <= i < name.len() && #[trigger] name[i] as u32 <= 0x7f implies (
    text::ascii_alphanumeric(name[i]) || name[i] == '-' || name[i] == '_' || name[i] == '.'
        || name[i] == '+' || name[i] == '@') by {
        assert(package_char(name[i]));
    }
}

/// The binaries that a cleaning operation may run.
pub open spec fn cleaning_binary(bin: Seq<char>) -> bool {
    ||| bin == "pacman"@
    ||| bin == "paccache"@
    ||| bin == "journalctl"@
    ||| bin == "systemctl"@
    ||| exists|h: AurHelper| bin == #[trigger] h.spec_name()
}

/// Every command of a cleaning operation names one of a few binaries, never a shell.
pub proof fn cleaning_runs_known_binaries(phase: CleanPhaseView)
    ensures
        match clean_request(phase) {
            RequestView::Capture(command) => cleaning_binary(command.bin) && command.bin != "sh"@
                && command.bin != "bash"@,
            RequestView::Stream { command, .. } => cleaning_binary(command.bin) && command.bin
                != "sh"@ && command.bin != "bash"@,
            _ => true,
        },
{
    reveal_strlit("sh");
    reveal_strlit("bash");
    reveal_strlit("pacman");
    reveal_strlit("paccache");
    reveal_strlit("journalctl");
    reveal_strlit("systemctl");
    reveal_strlit("paru");
    reveal_strlit("yay");
    reveal_strlit("pikaur");
    reveal_strlit("trizen");
    assert("sh"@.len() == 2 && "bash"@.len() == 4);
    assert("pacman"@.len() == 6 && "paccache"@.len() == 8 && "journalctl"@.len() == 10);
    assert("systemctl"@.len() == 9 && "yay"@.len() == 3 && "pikaur"@.len() == 6);
    assert("trizen"@.len() == 6 && "paru"@.len() == 4);
    assert("paru"@[0] != "bash"@[0]);
    if let CleanPhaseView::AurCache(h) = phase {
        assert(cleaning_binary(h.spec_name()));
    }
}

/// How the system answers each request in the course of one cleaning operation, and what the work
/// itself logs.
pub struct CleanWorld {
    pub work: spec_fn(RequestView, TermView) -> TermView,
    pub orphans: Option<CapturedView>,
    pub removing: Option<Seq<char>>,
    pub cache_old: Option<Seq<char>>,
    pub cache_uninstalled: Option<Seq<char>>,
    pub journal: Option<Seq<char>>,
    pub reset_failed: Option<Seq<char>>,
    pub installed: spec_fn(AurHelper) -> bool,
    pub aur_cache: Option<Seq<char>>,
}

impl CleanWorld {
    /// The answer to the request of a phase.
    pub open spec fn reply(self, phase: CleanPhaseView) -> ReplyView {
        match phase {
            CleanPhaseView::Orphans => ReplyView::Output(self.orphans),
            CleanPhaseView::Removing(_) => ReplyView::Ended(self.removing),
            CleanPhaseView::CacheOld => ReplyView::Ended(self.cache_old),
            CleanPhaseView::CacheUninstalled => ReplyView::Ended(self.cache_uninstalled),
            CleanPhaseView::Tmp => ReplyView::Done,
            CleanPhaseView::Journal => ReplyView::Ended(self.journal),
            CleanPhaseView::Browsers => ReplyView::Done,
            CleanPhaseView::Pycache => ReplyView::Done,
            CleanPhaseView::Thumbnails => ReplyView::Done,
            CleanPhaseView::ResetFailed => ReplyView::Ended(self.reset_failed),
            CleanPhaseView::Probe(h) => ReplyView::Found((self.installed)(h)),
            CleanPhaseView::AurCache(_) => ReplyView::Ended(self.aur_cache),
        }
    }

    /// The log once the work of a phase is done.
    pub open spec fn after(self, phase: CleanPhaseView, t: TermView) -> TermView {
        operation::worked(self.work, clean_request(phase), t)
    }

    /// The helper that is used, if there is one.
    pub open spec fn helper(self) -> Option<AurHelper> {
        aur::search_result(AurSearch::Ask(AurHelper::Paru), self.installed)
    }
}

/// How many steps are left at most.
pub open spec fn clean_rank(phase: CleanPhaseView) -> nat {
    match phase {
        CleanPhaseView::Orphans => 15,
        CleanPhaseView::Removing(_) => 14,
        CleanPhaseView::CacheOld => 13,
        CleanPhaseView::CacheUninstalled => 12,
        CleanPhaseView::Tmp => 11,
        CleanPhaseView::Journal => 10,
        CleanPhaseView::Browsers => 9,
        CleanPhaseView::Pycache => 8,
        CleanPhaseView::Thumbnails => 7,
        CleanPhaseView::ResetFailed => 6,
        CleanPhaseView::Probe(h) => (5 - h.rank()) as nat,
        CleanPhaseView::AurCache(_) => 1,
    }
}

/// A cleaning operation from some point to its end: what it asks of the system, in order, how it
/// ends, and the log by then, with what the work itself logs.
pub open spec fn clean_run(c: CleanView, w: CleanWorld, t: TermView) -> (
    Seq<RequestView>,
    Option<Seq<char>>,
    TermView,
)
    decreases clean_rank(c.phase),
{
    let (step, logged) = clean_next(c, w.reply(c.phase), w.after(c.phase, t));
    let asked = seq![clean_request(c.phase)];
    match step {
        CleanStepView::Continue(next) => {
            let (more, failure, end) = clean_run(next, w, logged);
            (asked + more, failure, end)
        },
        CleanStepView::Done(failure) => (asked, failure, logged),
    }
}

/// The first failure among the steps of the quick clean.
pub open spec fn quick_failure(w: CleanWorld) -> Option<Seq<char>> {
    let removing = if orphans_of(w.orphans).len() == 0 {
        None
    } else {
        w.removing
    };
    first_of(first_of(removing, w.cache_old), w.cache_uninstalled)
}

/// The first failure among the steps of the extended part, without the one that is not fatal.
pub open spec fn extended_failure(w: CleanWorld) -> Option<Seq<char>> {
    first_of(w.journal, helper_failure(w, w.helper()))
}

/// The failure of the AUR helper, if there is one.
pub open spec fn helper_failure(w: CleanWorld, helper: Option<AurHelper>) -> Option<Seq<char>> {
    if helper is Some {
        w.aur_cache
    } else {
        None
    }
}

/// The failure that a cleaning operation ends with: the first one.
pub open spec fn clean_failure(full: bool, w: CleanWorld) -> Option<Seq<char>> {
    if full {
        first_of(quick_failure(w), extended_failure(w))
    } else {
        quick_failure(w)
    }
}

/// What a cleaning operation asks of the system, in order.
pub open spec fn clean_requests(full: bool, w: CleanWorld) -> Seq<RequestView> {
    if full {
        quick_requests(w) + extended_requests(w)
    } else {
        quick_requests(w)
    }
}

/// The log of a cleaning operation.
pub open spec fn clean_log(full: bool, w: CleanWorld, t: TermView) -> TermView {
    let quick = quick_log(w, quick_begun(t));
    if full {
        extended_log(w, quick)
    } else {
        quick
    }
}

/// What the quick clean asks of the system, in order.
pub open spec fn quick_requests(w: CleanWorld) -> Seq<RequestView> {
    let names = orphans_of(w.orphans);
    let removal = if names.len() == 0 {
        Seq::empty()
    } else {
        seq![clean_request(CleanPhaseView::Removing(names))]
    };
    seq![clean_request(CleanPhaseView::Orphans)] + removal + seq![
        clean_request(CleanPhaseView::CacheOld),
        clean_request(CleanPhaseView::CacheUninstalled),
        RequestView::ClearTmp,
    ]
}

/// What the extended part asks of the system, in order.
pub open spec fn extended_requests(w: CleanWorld) -> Seq<RequestView> {
    let probes = probes_until(w.helper());
    let cleanup = match w.helper() {
        Some(h) => seq![clean_request(CleanPhaseView::AurCache(h))],
        None => Seq::empty(),
    };
    seq![
        clean_request(CleanPhaseView::Journal),
        RequestView::BrowserCaches,
        RequestView::Pycache,
        RequestView::Thumbnails,
        clean_request(CleanPhaseView::ResetFailed),
    ] + probes + cleanup
}

/// The helpers that are looked for before the search ends with `found`.
pub open spec fn probes_until(found: Option<AurHelper>) -> Seq<RequestView> {
    let all = seq![
        RequestView::Which("paru"@),
        RequestView::Which("yay"@),
        RequestView::Which("pikaur"@),
        RequestView::Which("trizen"@),
    ];
    match found {
        Some(h) => all.take(h.rank() + 1),
        None => all,
    }
}

/// The log of the quick clean.
pub open spec fn quick_log(w: CleanWorld, t: TermView) -> TermView {
    let names = orphans_of(w.orphans);
    let count = text::decimal(names.len());
    let orphans_told = if names.len() == 0 {
        t.ok("No orphan packages found."@)
    } else {
        outcome_told(
            w.after(
                CleanPhaseView::Removing(names),
                t.info("Found "@ + count + " orphan(s) — removing..."@),
            ),
            w.removing,
            "Removed "@ + count + " orphan(s)."@,
        )
    };
    cache_log(w, cache_begun(orphans_told)).push(60).info("Clearing /tmp..."@).ok(
        "Temporary files cleared."@,
    ).push(100)
}

/// The log once the package cache is cleaned.
pub open spec fn cache_log(w: CleanWorld, t: TermView) -> TermView {
    let old = failure_told(w.after(CleanPhaseView::CacheOld, t), w.cache_old);
    failure_told(w.after(CleanPhaseView::CacheUninstalled, old), w.cache_uninstalled).ok(
        "Package cache cleaned."@,
    )
}

/// The log of the extended part.
pub open spec fn extended_log(w: CleanWorld, t: TermView) -> TermView {
    let journal = outcome_told(
        w.after(CleanPhaseView::Journal, extended_begun(t)),
        w.journal,
        "Journal cleaned."@,
    );
    let browsers = w.after(
        CleanPhaseView::Browsers,
        journal.info("Cleaning browser caches..."@),
    ).ok("Browser caches cleared."@).push(45);
    let pycache = w.after(
        CleanPhaseView::Pycache,
        browsers.info("Cleaning Python bytecode caches..."@),
    ).ok("Python caches cleared."@).push(60);
    let thumbnails = w.after(
        CleanPhaseView::Thumbnails,
        pycache.info("Clearing thumbnail caches..."@),
    ).ok("Thumbnails cleared."@).push(72);
    let swept = outcome_told(
        w.after(CleanPhaseView::ResetFailed, thumbnails),
        w.reset_failed,
        "systemd reset-failed done."@,
    );
    helper_log(w, w.helper(), swept)
}

/// The log once the cache of the AUR helper is cleaned, if there is one.
pub open spec fn helper_log(w: CleanWorld, helper: Option<AurHelper>, t: TermView) -> TermView {
    match helper {
        Some(h) => outcome_told(
            w.after(
                CleanPhaseView::AurCache(h),
                t.info("Cleaning "@ + h.spec_name() + " cache..."@),
            ),
            w.aur_cache,
            h.spec_name() + " cache cleaned."@,
        ).push(100),
        None => t.push(100),
    }
}

/// From the package cache on, a clean asks for the rest of the quick clean, and then for the
/// extended part if it is a full one.
proof fn lemma_run_from_cache(full: bool, failed: Option<Seq<char>>, w: CleanWorld, t: TermView)
    ensures
        ({
            let tail = seq![
                clean_request(CleanPhaseView::CacheOld),
                clean_request(CleanPhaseView::CacheUninstalled),
                RequestView::ClearTmp,
            ];
            let cleared = cache_log(w, t).push(60).info("Clearing /tmp..."@).ok(
                "Temporary files cleared."@,
            ).push(100);
            let by_then = first_of(first_of(failed, w.cache_old), w.cache_uninstalled);
            clean_run(CleanView { full, failed, phase: CleanPhaseView::CacheOld }, w, t) == if full {
                let (more, failure, end) = clean_run(
                    CleanView { full, failed: by_then, phase: CleanPhaseView::Journal },
                    w,
                    extended_begun(cleared),
                );
                (tail + more, failure, end)
            } else {
                (tail, by_then, cleared)
            }
        }),
{
    let f2 = first_of(failed, w.cache_old);
    let f3 = first_of(f2, w.cache_uninstalled);
    let c2 = CleanView { full, failed: f2, phase: CleanPhaseView::CacheUninstalled };
    let c3 = CleanView { full, failed: f3, phase: CleanPhaseView::Tmp };
    let t2 = failure_told(w.after(CleanPhaseView::CacheOld, t), w.cache_old);
    let t3 = cache_log(w, t).push(60).info("Clearing /tmp..."@);
    let r3 = clean_run(c3, w, t3);
    let r2 = clean_run(c2, w, t2);
    let a1 = seq![clean_request(CleanPhaseView::CacheOld)];
    let a2 = seq![clean_request(CleanPhaseView::CacheUninstalled)];
    let a3 = seq![RequestView::ClearTmp];
    assert(r2 == (a2 + r3.0, r3.1, r3.2));
    let all = seq![
        clean_request(CleanPhaseView::CacheOld),
        clean_request(CleanPhaseView::CacheUninstalled),
        RequestView::ClearTmp,
    ];
    if full {
        let c4 = CleanView { full, failed: f3, phase: CleanPhaseView::Journal };
        let r4 = clean_run(
            c4,
            w,
            extended_begun(t3.ok("Temporary files cleared."@).push(100)),
        );
        assert(a1 + (a2 + (a3 + r4.0)) == all + r4.0);
    } else {
        assert(a1 + (a2 + a3) == all);
    }
}

/// The extended part, from the search for a helper on.
proof fn lemma_run_from_probe(
    h: AurHelper,
    failed: Option<Seq<char>>,
    w: CleanWorld,
    t: TermView,
)
    ensures
        ({
            let found = aur::search_result(AurSearch::Ask(h), w.installed);
            let cleanup = match found {
                Some(f) => seq![clean_request(CleanPhaseView::AurCache(f))],
                None => Seq::empty(),
            };
            &&& found matches Some(f) ==> h.rank() <= f.rank()
            &&& clean_run(
                CleanView { full: true, failed, phase: CleanPhaseView::Probe(h) },
                w,
                t,
            ) == (
                probes_until(found).skip(h.rank()) + cleanup,
                first_of(failed, helper_failure(w, found)),
                helper_log(w, found, t),
            )
        }),
    decreases 4 - h.rank(),
{
    let found = aur::search_result(AurSearch::Ask(h), w.installed);
    reveal_with_fuel(aur::search_result, 2);
    reveal_with_fuel(clean_run, 2);
    let asked = seq![RequestView::Which(h.spec_name())];
    let none = Seq::<RequestView>::empty();
    let installed = (w.installed)(h);
    if installed {
        assert(found == Some(h));
        assert(probes_until(found).skip(h.rank()) == asked);
    } else {
        match h.next() {
            Some(next) => {
                lemma_run_from_probe(next, failed, w, t);
                let cleanup = match found {
                    Some(f) => seq![clean_request(CleanPhaseView::AurCache(f))],
                    None => none,
                };
                assert(probes_until(found).skip(h.rank()) == asked + probes_until(found).skip(
                    next.rank(),
                ));
                assert(asked + (probes_until(found).skip(next.rank()) + cleanup) == (asked
                    + probes_until(found).skip(next.rank())) + cleanup);
            },
            None => {
                assert(found is None);
                assert(probes_until(found).skip(h.rank()) == asked);
                assert(asked + none == asked);
            },
        }
    }
}

/// The extended part from its beginning on.
proof fn lemma_run_extended(failed: Option<Seq<char>>, w: CleanWorld, t: TermView)
    ensures
        clean_run(
            CleanView { full: true, failed, phase: CleanPhaseView::Journal },
            w,
            extended_begun(t),
        ) == (extended_requests(w), first_of(failed, extended_failure(w)), extended_log(w, t)),
{
    let f = first_of(failed, w.journal);
    let at = |failed: Option<Seq<char>>, phase: CleanPhaseView|
        CleanView { full: true, failed, phase };
    let t1 = extended_begun(t);
    let t2 = outcome_told(
        w.after(CleanPhaseView::Journal, t1),
        w.journal,
        "Journal cleaned."@,
    ).info("Cleaning browser caches..."@);
    let t3 = w.after(CleanPhaseView::Browsers, t2).ok("Browser caches cleared."@).push(45).info(
        "Cleaning Python bytecode caches..."@,
    );
    let t4 = w.after(CleanPhaseView::Pycache, t3).ok("Python caches cleared."@).push(60).info(
        "Clearing thumbnail caches..."@,
    );
    let t5 = w.after(CleanPhaseView::Thumbnails, t4).ok("Thumbnails cleared."@).push(72);
    let t6 = outcome_told(
        w.after(CleanPhaseView::ResetFailed, t5),
        w.reset_failed,
        "systemd reset-failed done."@,
    );
    lemma_run_from_probe(AurHelper::Paru, f, w, t6);
    let r6 = clean_run(at(f, CleanPhaseView::Probe(AurHelper::Paru)), w, t6);
    let r5 = clean_run(at(f, CleanPhaseView::ResetFailed), w, t5);
    let r4 = clean_run(at(f, CleanPhaseView::Thumbnails), w, t4);
    let r3 = clean_run(at(f, CleanPhaseView::Pycache), w, t3);
    let r2 = clean_run(at(f, CleanPhaseView::Browsers), w, t2);
    let r1 = clean_run(at(failed, CleanPhaseView::Journal), w, t1);
    assert(r5 == (seq![clean_request(CleanPhaseView::ResetFailed)] + r6.0, r6.1, r6.2));
    assert(r4 == (seq![RequestView::Thumbnails] + r5.0, r5.1, r5.2));
    assert(r3 == (seq![RequestView::Pycache] + r4.0, r4.1, r4.2));
    assert(r2 == (seq![RequestView::BrowserCaches] + r3.0, r3.1, r3.2));
    assert(r1 == (seq![clean_request(CleanPhaseView::Journal)] + r2.0, r2.1, r2.2));
    let probes = probes_until(w.helper());
    assert(probes.skip(0) == probes);
    assert(r1.0 == extended_requests(w));
}

/// The whole of a clean: what it asks of the system and in which order, with which failure it ends,
/// and what it tells the user, all of it for every way in which the system may answer.
pub proof fn cleaning_runs_to_its_end(full: bool, w: CleanWorld, t: TermView)
    ensures
        clean_run(clean_start(full), w, quick_begun(t)) == (
            clean_requests(full, w),
            clean_failure(full, w),
            clean_log(full, w, t),
        ),
{
    let names = orphans_of(w.orphans);
    let count = text::decimal(names.len());
    let t0 = quick_begun(t);
    let c0 = clean_start(full);
    let a0 = seq![clean_request(CleanPhaseView::Orphans)];
    let tail = seq![
        clean_request(CleanPhaseView::CacheOld),
        clean_request(CleanPhaseView::CacheUninstalled),
        RequestView::ClearTmp,
    ];
    lemma_run_extended(quick_failure(w), w, quick_log(w, t0));
    if names.len() == 0 {
        let t1 = cache_begun(t0.ok("No orphan packages found."@));
        let c1 = CleanView { full, failed: None, phase: CleanPhaseView::CacheOld };
        lemma_run_from_cache(full, None, w, t1);
        let r1 = clean_run(c1, w, t1);
        assert(clean_run(c0, w, t0) == (a0 + r1.0, r1.1, r1.2));
        assert(a0 + tail == quick_requests(w));
        assert(a0 + (tail + extended_requests(w)) == quick_requests(w) + extended_requests(w));
    } else {
        let removing = CleanPhaseView::Removing(names);
        let a1 = seq![clean_request(removing)];
        let t1 = t0.info("Found "@ + count + " orphan(s) — removing..."@);
        let t2 = cache_begun(
            outcome_told(w.after(removing, t1), w.removing, "Removed "@ + count + " orphan(s)."@),
        );
        let c2 = CleanView { full, failed: w.removing, phase: CleanPhaseView::CacheOld };
        lemma_run_from_cache(full, w.removing, w, t2);
        let r2 = clean_run(c2, w, t2);
        let r1 = clean_run(CleanView { full, failed: None, phase: removing }, w, t1);
        assert(r1 == (a1 + r2.0, r2.1, r2.2));
        assert(clean_run(c0, w, t0) == (a0 + r1.0, r1.1, r1.2));
        assert(a0 + (a1 + tail) == quick_requests(w));
        assert(a0 + (a1 + (tail + extended_requests(w))) == quick_requests(w) + extended_requests(
            w,
        ));
    }
}

/// A clean ends in success exactly if none of its steps failed, apart from the one that is not
/// fatal.
pub proof fn cleaning_fails_exactly_if_a_step_fails(full: bool, w: CleanWorld, t: TermView)
    ensures
        clean_run(clean_start(full), w, quick_begun(t)).1 is None <==> {
            &&& orphans_of(w.orphans).len() > 0 ==> w.removing is None
            &&& w.cache_old is None
            &&& w.cache_uninstalled is None
            &&& full ==> {
                &&& w.journal is None
                &&& w.helper() is Some ==> w.aur_cache is None
            }
        },
{
    cleaning_runs_to_its_end(full, w, t);
}

/// A full clean does all that a quick clean does and then all of the extended part, whatever fails
/// on the way.
pub proof fn full_clean_extends_the_quick_one(w: CleanWorld, t: TermView)
    ensures
        clean_run(clean_start(true), w, quick_begun(t)).0 == clean_run(
            clean_start(false),
            w,
            quick_begun(t),
        ).0 + extended_requests(w),
{
    cleaning_runs_to_its_end(true, w, t);
    cleaning_runs_to_its_end(false, w, t);
}

/// A text is a package name, whatever its length, exactly if it is not empty and made only of letters,
/// digits and the characters `-`, `_`, `.`, `+` and `@`.
pub proof fn package_names_are_all_plain_texts(name: Seq<char>)
    ensures
        package_name(name) <==> name.len() > 0 && forall|i: int|
            0 <= i < name.len() ==> text::is_alphanumeric(#[trigger] name[i]) || name[i] == '-'
                || name[i] == '_' || name[i] == '.' || name[i] == '+' || name[i] == '@',
{
    if package_name(name) {
        assert forall|i: int| 0 <= i < name.len() implies text::is_alphanumeric(
            #[trigger] name[i],
        ) || name[i] == '-' || name[i] == '_' || name[i] == '.' || name[i] == '+' || name[i]
            == '@' by {
            assert(package_char(name[i]));
        }
    }
}

/// Orphans are exactly the lines that a successful query printed, trimmed and in order, that are
/// package names: one line more is one orphan more if it holds such a name, and none if not.
pub proof fn every_listed_package_is_an_orphan(line: Seq<char>, rest: Seq<char>)
    requires
        !line.contains('\n'),
    ensures
        ({
            let name = text::trimmed(line);
            let plain = name.len() > 0 && forall|i: int|
                0 <= i < name.len() ==> text::is_alphanumeric(#[trigger] name[i]) || name[i] == '-'
                    || name[i] == '_' || name[i] == '.' || name[i] == '+' || name[i] == '@';
            &&& plain ==> orphans_in(line + seq!['\n'] + rest) == seq![name] + orphans_in(rest)
            &&& !plain ==> orphans_in(line + seq!['\n'] + rest) == orphans_in(rest)
            &&& plain ==> orphans_in(line) == seq![name]
            &&& !plain ==> orphans_in(line) == Seq::<Seq<char>>::empty()
        }),
{
    let name = text::trimmed(line);
    let named = |name: Seq<char>| package_name(name);
    let none = Seq::<Seq<char>>::empty();
    let one = seq![name];
    package_names_are_all_plain_texts(name);
    text::every_filled_line_is_kept(line, rest);
    reveal(Seq::filter);
    assert(none.filter(named) == none);
    assert(one == none.push(name));
    none.lemma_filter_push(name, named);
    Seq::filter_distributes_over_add(one, text::filled_lines(rest), named);
    assert(none + orphans_in(rest) == orphans_in(rest));
    assert(none.push(name) == one);
}

/// Only a query that succeeded yields orphans, and then all that it listed.
pub proof fn orphans_need_a_successful_query(c: CapturedView)
    ensures
        c.success ==> orphans_of(Some(c)) == orphans_in(text::lossy_text(c.stdout)),
        !c.success ==> orphans_of(Some(c)) == Seq::<Seq<char>>::empty(),
        orphans_of(None) == Seq::<Seq<char>>::empty(),
{
}

proof fn lemma_clean_commands(names: Seq<Seq<char>>, h: AurHelper)
    ensures
        clean_request(CleanPhaseView::Orphans) == RequestView::Capture(
            InvocationView { bin: "pacman"@, args: seq!["-Qtdq"@] },
        ),
        clean_request(CleanPhaseView::Removing(names)) == (RequestView::Stream {
            command: InvocationView {
                bin: "pacman"@,
                args: seq!["-Rns"@, "--noconfirm"@, "--"@] + names,
            },
            percent: 20,
        }),
        clean_request(CleanPhaseView::CacheOld) == (RequestView::Stream {
            command: InvocationView { bin: "paccache"@, args: seq!["-rk1"@] },
            percent: 45,
        }),
        clean_request(CleanPhaseView::CacheUninstalled) == (RequestView::Stream {
            command: InvocationView { bin: "paccache"@, args: seq!["-ruk0"@] },
            percent: 55,
        }),
        clean_request(CleanPhaseView::Journal) == (RequestView::Stream {
            command: InvocationView { bin: "journalctl"@, args: seq!["--vacuum-time=7d"@] },
            percent: 20,
        }),
        clean_request(CleanPhaseView::ResetFailed) == (RequestView::Stream {
            command: InvocationView { bin: "systemctl"@, args: seq!["reset-failed"@] },
            percent: 80,
        }),
        clean_request(CleanPhaseView::AurCache(h)) == (RequestView::Stream {
            command: InvocationView { bin: h.spec_name(), args: seq!["-Sc"@, "--noconfirm"@] },
            percent: 92,
        }),
{
    let of = |bin: Seq<char>| InvocationView::of(bin);
    assert(of("pacman"@).arg("-Qtdq"@).args == seq!["-Qtdq"@]);
    assert(of("pacman"@).arg("-Rns"@).arg("--noconfirm"@).arg("--"@).args(names).args == seq![
        "-Rns"@,
        "--noconfirm"@,
        "--"@,
    ] + names);
    assert(of("paccache"@).arg("-rk1"@).args == seq!["-rk1"@]);
    assert(of("paccache"@).arg("-ruk0"@).args == seq!["-ruk0"@]);
    assert(of("journalctl"@).arg("--vacuum-time=7d"@).args == seq!["--vacuum-time=7d"@]);
    assert(of("systemctl"@).arg("reset-failed"@).args == seq!["reset-failed"@]);
    assert(of(h.spec_name()).arg("-Sc"@).arg("--noconfirm"@).args == seq!["-Sc"@, "--noconfirm"@]);
}

/// What a whole clean asks of the system, for every way in which the system answers: all orphans are
/// removed in one go, then the package cache and temporary files; a full clean goes on with the
/// journal, the caches of browsers, Python and thumbnails, the failed units and the cache of the
/// helper that comes first.
pub proof fn the_whole_clean_is_asked_for(full: bool, w: CleanWorld, t: TermView)
    ensures
        ({
            let stream = |bin: Seq<char>, args: Seq<Seq<char>>, percent: u8|
                RequestView::Stream { command: InvocationView { bin, args }, percent };
            let has = |h: AurHelper| (w.installed)(h);
            let names = orphans_of(w.orphans);
            let probes = seq![
                RequestView::Which("paru"@),
                RequestView::Which("yay"@),
                RequestView::Which("pikaur"@),
                RequestView::Which("trizen"@),
            ];
            let sc = seq!["-Sc"@, "--noconfirm"@];
            let helper = if has(AurHelper::Paru) {
                probes.take(1).push(stream("paru"@, sc, 92))
            } else if has(AurHelper::Yay) {
                probes.take(2).push(stream("yay"@, sc, 92))
            } else if has(AurHelper::Pikaur) {
                probes.take(3).push(stream("pikaur"@, sc, 92))
            } else if has(AurHelper::Trizen) {
                probes.push(stream("trizen"@, sc, 92))
            } else {
                probes
            };
            let removal = if names.len() > 0 {
                seq![stream("pacman"@, seq!["-Rns"@, "--noconfirm"@, "--"@] + names, 20)]
            } else {
                Seq::empty()
            };
            let quick = seq![
                RequestView::Capture(InvocationView { bin: "pacman"@, args: seq!["-Qtdq"@] }),
            ] + removal + seq![
                stream("paccache"@, seq!["-rk1"@], 45),
                stream("paccache"@, seq!["-ruk0"@], 55),
                RequestView::ClearTmp,
            ];
            let extended = seq![
                stream("journalctl"@, seq!["--vacuum-time=7d"@], 20),
                RequestView::BrowserCaches,
                RequestView::Pycache,
                RequestView::Thumbnails,
                stream("systemctl"@, seq!["reset-failed"@], 80),
            ] + helper;
            clean_run(clean_start(full), w, quick_begun(t)).0 == if full {
                quick + extended
            } else {
                quick
            }
        }),
{
    let names = orphans_of(w.orphans);
    cleaning_runs_to_its_end(full, w, t);
    aur::helpers_are_preferred_in_order(w.installed);
    lemma_clean_commands(names, AurHelper::Paru);
    lemma_clean_commands(names, AurHelper::Yay);
    lemma_clean_commands(names, AurHelper::Pikaur);
    lemma_clean_commands(names, AurHelper::Trizen);
    let all = seq![
        RequestView::Which("paru"@),
        RequestView::Which("yay"@),
        RequestView::Which("pikaur"@),
        RequestView::Which("trizen"@),
    ];
    let probes = probes_until(w.helper());
    let start = seq![
        clean_request(CleanPhaseView::Journal),
        RequestView::BrowserCaches,
        RequestView::Pycache,
        RequestView::Thumbnails,
        clean_request(CleanPhaseView::ResetFailed),
    ];
    match w.helper() {
        Some(h) => {
            let last = clean_request(CleanPhaseView::AurCache(h));
            assert(probes == all.take(h.rank() + 1));
            assert(start + probes + seq![last] == start + probes.push(last));
            if h == AurHelper::Trizen {
                assert(all.take(4) == all);
            }
        },
        None => {
            assert(start + probes + Seq::<RequestView>::empty() == start + all);
        },
    }
}

/// What a whole clean ends with: the first failure of a step, in its own words, or success if there
/// was none. The reset of systemd's failed units does not count.
pub proof fn the_first_failure_is_the_result(full: bool, w: CleanWorld, t: TermView)
    ensures
        ({
            let failure = clean_run(clean_start(full), w, quick_begun(t)).1;
            let names = orphans_of(w.orphans);
            let helper = (w.installed)(AurHelper::Paru) || (w.installed)(AurHelper::Yay) || (
            w.installed)(AurHelper::Pikaur) || (w.installed)(AurHelper::Trizen);
            if names.len() > 0 && w.removing is Some {
                failure == w.removing
            } else if w.cache_old is Some {
                failure == w.cache_old
            } else if w.cache_uninstalled is Some {
                failure == w.cache_uninstalled
            } else if full && w.journal is Some {
                failure == w.journal
            } else if full && helper && w.aur_cache is Some {
                failure == w.aur_cache
            } else {
                failure is None
            }
        }),
{
    cleaning_runs_to_its_end(full, w, t);
    aur::helpers_are_preferred_in_order(w.installed);
}

/// What a whole clean tells the user, in every way in which the system answers: how many orphans
/// there are and what became of them, what each step came to, and what the work itself logs in
/// between.
pub proof fn the_whole_clean_is_told(full: bool, w: CleanWorld, t: TermView)
    ensures
        ({
            let has = |h: AurHelper| (w.installed)(h);
            let after = |request: RequestView, t: TermView| operation::worked(w.work, request, t);
            let stream = |bin: Seq<char>, args: Seq<Seq<char>>, percent: u8|
                RequestView::Stream { command: InvocationView { bin, args }, percent };
            let outcome = |t: TermView, failure: Option<Seq<char>>, success: Seq<char>|
                match failure {
                    Some(e) => t.err(e),
                    None => t.ok(success),
                };
            let failed = |t: TermView, failure: Option<Seq<char>>|
                match failure {
                    Some(e) => t.err(e),
                    None => t,
                };
            let names = orphans_of(w.orphans);
            let count = text::decimal(names.len());
            let begun = t.info("══ Quick Clean ══════════════════════"@).push(5).info(
                "Checking for orphan packages..."@,
            ).push(10);
            let orphans = if names.len() == 0 {
                begun.ok("No orphan packages found."@)
            } else {
                outcome(
                    after(
                        stream("pacman"@, seq!["-Rns"@, "--noconfirm"@, "--"@] + names, 20),
                        begun.info("Found "@ + count + " orphan(s) — removing..."@),
                    ),
                    w.removing,
                    "Removed "@ + count + " orphan(s)."@,
                )
            }.push(30).info("Cleaning package cache (keeping 1 version)..."@);
            let old = failed(
                after(stream("paccache"@, seq!["-rk1"@], 45), orphans),
                w.cache_old,
            );
            let cache = failed(
                after(stream("paccache"@, seq!["-ruk0"@], 55), old),
                w.cache_uninstalled,
            ).ok("Package cache cleaned."@).push(60);
            let quick = cache.info("Clearing /tmp..."@).ok("Temporary files cleared."@).push(100);
            let journal = outcome(
                after(
                    stream("journalctl"@, seq!["--vacuum-time=7d"@], 20),
                    quick.info("══ Full Clean (extended) ════════════"@).push(5).info(
                        "Vacuuming systemd journal (keep 7 days)..."@,
                    ),
                ),
                w.journal,
                "Journal cleaned."@,
            );
            let browsers = after(
                RequestView::BrowserCaches,
                journal.info("Cleaning browser caches..."@),
            ).ok("Browser caches cleared."@).push(45);
            let pycache = after(
                RequestView::Pycache,
                browsers.info("Cleaning Python bytecode caches..."@),
            ).ok("Python caches cleared."@).push(60);
            let thumbnails = after(
                RequestView::Thumbnails,
                pycache.info("Clearing thumbnail caches..."@),
            ).ok("Thumbnails cleared."@).push(72);
            let reset = outcome(
                after(stream("systemctl"@, seq!["reset-failed"@], 80), thumbnails),
                w.reset_failed,
                "systemd reset-failed done."@,
            );
            let helper = if has(AurHelper::Paru) {
                Some("paru"@)
            } else if has(AurHelper::Yay) {
                Some("yay"@)
            } else if has(AurHelper::Pikaur) {
                Some("pikaur"@)
            } else if has(AurHelper::Trizen) {
                Some("trizen"@)
            } else {
                None
            };
            let extended = match helper {
                Some(bin) => outcome(
                    after(
                        stream(bin, seq!["-Sc"@, "--noconfirm"@], 92),
                        reset.info("Cleaning "@ + bin + " cache..."@),
                    ),
                    w.aur_cache,
                    bin + " cache cleaned."@,
                ),
                None => reset,
            }.push(100);
            clean_run(clean_start(full), w, quick_begun(t)).2 == if full {
                extended
            } else {
                quick
            }
        }),
{
    let names = orphans_of(w.orphans);
    cleaning_runs_to_its_end(full, w, t);
    aur::helpers_are_preferred_in_order(w.installed);
    lemma_clean_commands(names, AurHelper::Paru);
    lemma_clean_commands(names, AurHelper::Yay);
    lemma_clean_commands(names, AurHelper::Pikaur);
    lemma_clean_commands(names, AurHelper::Trizen);
}

} // verus!
