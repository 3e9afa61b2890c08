//! The operations that the user can start, from the first line of the log to the last.
use crate::cleaner;
use crate::cleaner::{CleanStep, CleanStepView, CleanView, CleanWorld, Cleaner};
use crate::command;
use crate::command::{InvocationView, StreamEventView, StreamPhase, StreamView};
use crate::operation;
use crate::operation::{Reply, ReplyView, Request, RequestView};
use crate::sweep;
use crate::sweep::{BrowserEventView, BrowserView};
use crate::terminal::{Term, TermView};
use crate::text;
use crate::updater;
use crate::updater::{UpdatePhaseView, UpdateStep, UpdateStepView, UpdateWorld, Updater};
use crate::walk;
use crate::walk::WalkEventView;
use vstd::prelude::*;
use vstd::string::*;

verus! {

/// What the user can start.
#[derive(Clone, Copy, Debug, PartialEq, Eq, Structural)]
pub enum Operation {
    QuickClean,
    FullClean,
    Update,
    /// An update, then a full clean.
    Maintenance,
}

/// The part of an operation that is under way.
pub enum Job {
    Clean(Cleaner),
    Update(Updater),
}

/// The part of an operation that is under way, as a mathematical value.
pub enum JobView {
    Clean(CleanView),
    Update(UpdatePhaseView),
}

impl View for Job {
    type V = JobView;

    open spec fn view(&self) -> JobView {
        match *self {
            Job::Clean(c) => JobView::Clean(c@),
            Job::Update(u) => JobView::Update(u@),
        }
    }
}

/// An operation under way.
pub struct Session {
    operation: Operation,
    job: Job,
}

/// An operation under way, as a mathematical value.
pub struct SessionView {
    pub operation: Operation,
    pub job: JobView,
}

impl View for Session {
    type V = SessionView;

    closed spec fn view(&self) -> SessionView {
        SessionView { operation: self.operation, job: self.job@ }
    }
}

/// An operation that goes on, as a mathematical value; `None` once it has ended.
pub open spec fn session_in(s: Option<Session>) -> Option<SessionView> {
    match s {
        Some(s) => Some(s@),
        None => None,
    }
}

/// A failure goes into the log behind `label`, a success does not.
pub open spec fn failure_labelled(
    t: TermView,
    failure: Option<Seq<char>>,
    label: Seq<char>,
) -> TermView {
    match failure {
        Some(e) => t.err(label + e),
        None => t,
    }
}

/// The log with the last lines of an operation.
pub open spec fn finished(t: TermView) -> TermView {
    t.info("─────────────────────────────────────"@).ok("Done! Refreshing stats..."@)
}

/// The beginning of an operation, and the log by then.
pub open spec fn session_begun(operation: Operation, t: TermView) -> (SessionView, TermView) {
    let quick = cleaner::clean_start(false);
    let full = cleaner::clean_start(true);
    let (job, begun) = match operation {
        Operation::QuickClean => (JobView::Clean(quick), cleaner::quick_begun(t)),
        Operation::FullClean => (JobView::Clean(full), cleaner::quick_begun(t)),
        Operation::Update => (JobView::Update(UpdatePhaseView::Sync), updater::update_begun(t)),
        Operation::Maintenance => (
            JobView::Update(UpdatePhaseView::Sync),
            updater::update_begun(t.info("══ One-Click Maintenance ════════════"@)),
        ),
    };
    (SessionView { operation, job }, begun)
}

/// What the operation asks of the system.
pub open spec fn session_request(s: SessionView) -> RequestView {
    match s.job {
        JobView::Clean(c) => cleaner::clean_request(c.phase),
        JobView::Update(phase) => updater::update_request(phase),
    }
}

/// The log once a clean has ended, the last part of every operation that has one.
pub open spec fn clean_ended(
    operation: Operation,
    failure: Option<Seq<char>>,
    t: TermView,
) -> TermView {
    let label = if operation == Operation::Maintenance {
        "Clean error: "@
    } else {
        "Fatal error: "@
    };
    finished(failure_labelled(t, failure, label))
}

/// What follows the end of an update: in the course of a maintenance the full clean, with the
/// progress bar halfway in between, else nothing.
pub open spec fn update_ended(
    operation: Operation,
    failure: Option<Seq<char>>,
    t: TermView,
) -> (Option<SessionView>, TermView) {
    if operation == Operation::Maintenance {
        let full = cleaner::clean_start(true);
        (
            Some(SessionView { operation, job: JobView::Clean(full) }),
            cleaner::quick_begun(failure_labelled(t, failure, "Update error: "@).nudge(50)),
        )
    } else {
        (None, finished(failure_labelled(t, failure, "Fatal error: "@)))
    }
}

/// What a reply leads to: the operation goes on or ends, and the log grows.
pub open spec fn session_next(s: SessionView, reply: ReplyView, t: TermView) -> (
    Option<SessionView>,
    TermView,
) {
    match s.job {
        JobView::Clean(c) => {
            let (step, logged) = cleaner::clean_next(c, reply, t);
            match step {
                CleanStepView::Continue(next) => (
                    Some(SessionView { job: JobView::Clean(next), ..s }),
                    logged,
                ),
                CleanStepView::Done(failure) => (None, clean_ended(s.operation, failure, logged)),
            }
        },
        JobView::Update(phase) => {
            let (step, logged) = updater::update_next(phase, reply, t);
            match step {
                UpdateStepView::Continue(next) => (
                    Some(SessionView { job: JobView::Update(next), ..s }),
                    logged,
                ),
                UpdateStepView::Done(failure) => update_ended(s.operation, failure, logged),
            }
        },
    }
}

/// Logs the last lines of an operation.
pub fn finish(term: &mut Term)
    ensures
        final(term)@ == finished(old(term)@),
{
    term.info("─────────────────────────────────────");
    term.ok("Done! Refreshing stats...");
}

/// Logs a failure behind `label`.
fn tell_failure_labelled(term: &mut Term, r: &Result<(), String>, label: &str)
    ensures
        final(term)@ == failure_labelled(old(term)@, crate::command::failure(*r), label@),
{
    if let Err(e) = r {
        term.err(text::concat2(label, e.as_str()).as_str());
    }
}

impl Session {
    /// Begins an operation.
    pub fn begin(operation: Operation, term: &mut Term) -> (r: Session)
        ensures
            (r@, final(term)@) == session_begun(operation, old(term)@),
    {
        let job = match operation {
            Operation::QuickClean => Job::Clean(cleaner::quick_clean(term)),
            Operation::FullClean => Job::Clean(cleaner::full_clean(term)),
            Operation::Update => Job::Update(updater::system_update(term)),
            Operation::Maintenance => {
                term.info("══ One-Click Maintenance ════════════");
                Job::Update(updater::system_update(term))
            },
        };
        Session { operation, job }
    }

    /// What the operation waits for.
    pub fn request(&self) -> (r: Request)
        ensures
            r@ == session_request(self@),
    {
        match &self.job {
            Job::Clean(c) => c.request(),
            Job::Update(u) => u.request(),
        }
    }

    /// Takes note of the answer to the request. The operation has ended if nothing is left of it.
    pub fn resume(self, reply: Reply, term: &mut Term) -> (r: Option<Session>)
        ensures
            (session_in(r), final(term)@) == session_next(self@, reply@, old(term)@),
    {
        let Session { operation, job } = self;
        match job {
            Job::Clean(c) => match c.resume(reply, term) {
                CleanStep::Continue(next) => Some(Session { operation, job: Job::Clean(next) }),
                CleanStep::Done(r) => {
                    if operation == Operation::Maintenance {
                        tell_failure_labelled(term, &r, "Clean error: ");
                    } else {
                        tell_failure_labelled(term, &r, "Fatal error: ");
                    }
                    finish(term);
                    None
                },
            },
            Job::Update(u) => match u.resume(reply, term) {
                UpdateStep::Continue(next) => Some(Session { operation, job: Job::Update(next) }),
                UpdateStep::Done(r) => {
                    if operation == Operation::Maintenance {
                        tell_failure_labelled(term, &r, "Update error: ");
                        term.nudge(50);
                        Some(Session { operation, job: Job::Clean(cleaner::full_clean(term)) })
                    } else {
                        tell_failure_labelled(term, &r, "Fatal error: ");
                        finish(term);
                        None
                    }
                },
            },
        }
    }
}

/// How many steps are left at most.
pub open spec fn session_rank(s: SessionView) -> nat {
    match s.job {
        JobView::Clean(c) => cleaner::clean_rank(c.phase),
        JobView::Update(phase) => 16 + updater::update_rank(phase),
    }
}

/// An operation from some point to its end: what it asks of the system, in order, and the log by
/// then. The system answers a clean as `cw` says and an update as `uw` says.
pub open spec fn session_run(s: SessionView, cw: CleanWorld, uw: UpdateWorld, t: TermView) -> (
    Seq<RequestView>,
    TermView,
)
    decreases session_rank(s),
{
    let (next, logged) = match s.job {
        JobView::Clean(c) => session_next(s, cw.reply(c.phase), cw.after(c.phase, t)),
        JobView::Update(phase) => session_next(s, uw.reply(phase), uw.after(phase, t)),
    };
    let asked = seq![session_request(s)];
    match next {
        Some(next) => {
            let (more, end) = session_run(next, cw, uw, logged);
            (asked + more, end)
        },
        None => (asked, logged),
    }
}

/// A clean within an operation runs as a clean does by itself.
proof fn lemma_clean_part(
    operation: Operation,
    c: CleanView,
    cw: CleanWorld,
    uw: UpdateWorld,
    t: TermView,
)
    ensures
        ({
            let (asked, failure, end) = cleaner::clean_run(c, cw, t);
            session_run(SessionView { operation, job: JobView::Clean(c) }, cw, uw, t) == (
                asked,
                clean_ended(operation, failure, end),
            )
        }),
    decreases cleaner::clean_rank(c.phase),
{
    let (step, logged) = cleaner::clean_next(c, cw.reply(c.phase), cw.after(c.phase, t));
    if let CleanStepView::Continue(next) = step {
        lemma_clean_part(operation, next, cw, uw, logged);
    }
}

/// An update within an operation runs as an update does by itself.
proof fn lemma_update_part(
    operation: Operation,
    phase: UpdatePhaseView,
    cw: CleanWorld,
    uw: UpdateWorld,
    t: TermView,
)
    ensures
        ({
            let (asked, failure, end) = updater::update_run(phase, uw, t);
            let s = SessionView { operation, job: JobView::Update(phase) };
            session_run(s, cw, uw, t) == match update_ended(operation, failure, end) {
                (Some(next), logged) => {
                    let (more, last) = session_run(next, cw, uw, logged);
                    (asked + more, last)
                },
                (None, logged) => (asked, logged),
            }
        }),
    decreases updater::update_rank(phase),
{
    reveal(updater::update_run);
    let (step, logged) = updater::update_next(phase, uw.reply(phase), uw.after(phase, t));
    let asked = seq![updater::update_request(phase)];
    if let UpdateStepView::Continue(next) = step {
        lemma_update_part(operation, next, cw, uw, logged);
        let (later, failure, end) = updater::update_run(next, uw, logged);
        if let (Some(clean), begun) = update_ended(operation, failure, end) {
            let (more, last) = session_run(clean, cw, uw, begun);
            assert(asked + (later + more) == (asked + later) + more);
        }
    }
}

/// What a whole operation asks of the system, in order.
pub open spec fn session_requests(operation: Operation, cw: CleanWorld, uw: UpdateWorld) -> Seq<
    RequestView,
> {
    match operation {
        Operation::QuickClean => cleaner::clean_requests(false, cw),
        Operation::FullClean => cleaner::clean_requests(true, cw),
        Operation::Update => updater::update_requests(uw),
        Operation::Maintenance => updater::update_requests(uw) + cleaner::clean_requests(true, cw),
    }
}

/// The log of a whole operation.
pub open spec fn session_log(
    operation: Operation,
    cw: CleanWorld,
    uw: UpdateWorld,
    t: TermView,
) -> TermView {
    let clean = |full: bool, t: TermView|
        clean_ended(operation, cleaner::clean_failure(full, cw), cleaner::clean_log(full, cw, t));
    let update = |t: TermView| updater::update_log(uw, updater::update_begun(t));
    match operation {
        Operation::QuickClean => clean(false, t),
        Operation::FullClean => clean(true, t),
        Operation::Update => finished(update(t)),
        Operation::Maintenance => clean(
            true,
            update(t.info("══ One-Click Maintenance ════════════"@)).nudge(50),
        ),
    }
}

/// The whole of an operation: what it asks of the system and in which order, and what it tells the
/// user, for every way in which the system may answer. A maintenance is an update and then a full
/// clean, and every operation ends with the same two lines.
pub proof fn operations_run_to_their_end(
    operation: Operation,
    cw: CleanWorld,
    uw: UpdateWorld,
    t: TermView,
)
    ensures
        ({
            let (s, begun) = session_begun(operation, t);
            session_run(s, cw, uw, begun) == (
                session_requests(operation, cw, uw),
                session_log(operation, cw, uw, t),
            )
        }),
{
    let full = cleaner::clean_start(true);
    match operation {
        Operation::QuickClean => {
            let quick = cleaner::clean_start(false);
            cleaner::cleaning_runs_to_its_end(false, cw, t);
            lemma_clean_part(operation, quick, cw, uw, cleaner::quick_begun(t));
        },
        Operation::FullClean => {
            cleaner::cleaning_runs_to_its_end(true, cw, t);
            lemma_clean_part(operation, full, cw, uw, cleaner::quick_begun(t));
        },
        Operation::Update => {
            let begun = updater::update_begun(t);
            updater::update_runs_to_its_end(uw, begun);
            lemma_update_part(operation, UpdatePhaseView::Sync, cw, uw, begun);
        },
        Operation::Maintenance => {
            let begun = updater::update_begun(
                t.info("══ One-Click Maintenance ════════════"@),
            );
            let halfway = updater::update_log(uw, begun).nudge(50);
            updater::update_runs_to_its_end(uw, begun);
            lemma_update_part(operation, UpdatePhaseView::Sync, cw, uw, begun);
            cleaner::cleaning_runs_to_its_end(true, cw, halfway);
            lemma_clean_part(operation, full, cw, uw, cleaner::quick_begun(halfway));
        },
    }
}

/// No reply takes anything back from the log.
pub proof fn operations_only_add(s: SessionView, reply: ReplyView, t: TermView)
    ensures
        t.grew_to(session_next(s, reply, t).1),
{
    match s.job {
        JobView::Clean(c) => cleaner::cleaning_only_adds(c, reply, t),
        JobView::Update(phase) => {
            updater::update_only_adds(phase, reply, t);
            let (step, logged) = updater::update_next(phase, reply, t);
            if let UpdateStepView::Done(failure) = step {
                let end = update_ended(s.operation, failure, logged).1;
                assert(logged.grew_to(end));
                crate::terminal::growth_is_transitive(t, logged, end);
            }
        },
    }
}

proof fn lemma_listing_shows_nothing(t: TermView, lines: Seq<Seq<char>>)
    ensures
        updater::listed(t, lines).frames == t.frames,
    decreases lines.len(),
{
    if lines.len() > 0 {
        lemma_listing_shows_nothing(t, lines.drop_last());
    }
}

proof fn lemma_listing_logs_lines(t: TermView, lines: Seq<Seq<char>>)
    ensures
        updater::listed(t, lines).entries.len() == t.entries.len() + lines.len(),
    decreases lines.len(),
{
    if lines.len() > 0 {
        lemma_listing_logs_lines(t, lines.drop_last());
    }
}

/// No request to bring the window up to date shows more lines than were logged.
pub proof fn only_logged_lines_are_shown(s: SessionView, reply: ReplyView, t: TermView)
    requires
        t.wf(),
    ensures
        session_next(s, reply, t).1.wf(),
{
    if let (JobView::Update(UpdatePhaseView::Check), ReplyView::Output(out)) = (s.job, reply) {
        let updates = updater::updates_of(out);
        let counted = t.info(text::decimal(updates.len()) + " package(s) to upgrade:"@);
        let first = updates.take(updater::LISTED as int);
        lemma_listing_shows_nothing(counted, updates);
        lemma_listing_shows_nothing(counted, first);
        lemma_listing_logs_lines(counted, updates);
        lemma_listing_logs_lines(counted, first);
    }
}

/// The progress bar never goes beyond its end: neither where an operation moves it itself, nor
/// where it has a command move it.
pub proof fn progress_stays_in_range(s: SessionView, reply: ReplyView, t: TermView)
    requires
        t.in_range(),
    ensures
        session_next(s, reply, t).1.in_range(),
        session_request(s) matches RequestView::Stream { percent, .. } ==> percent <= 100,
{
    if let (JobView::Update(UpdatePhaseView::Check), ReplyView::Output(out)) = (s.job, reply) {
        let updates = updater::updates_of(out);
        let counted = t.info(text::decimal(updates.len()) + " package(s) to upgrade:"@);
        lemma_listing_shows_nothing(counted, updates);
        lemma_listing_shows_nothing(counted, updates.take(updater::LISTED as int));
    }
}

/// What happened while the work of an operation was done.
pub struct Traces {
    /// The events of the streamed run of a command.
    pub streams: spec_fn(InvocationView) -> Seq<StreamEventView>,
    pub browsers: Seq<BrowserEventView>,
    pub pycache: Seq<WalkEventView>,
    pub thumbnails: Seq<WalkEventView>,
}

/// The log after the work of a request, given what happened while it was done.
pub open spec fn traced_work(traces: Traces, request: RequestView, t: TermView) -> TermView {
    match request {
        RequestView::Stream { command, percent } => command::stream_after(
            StreamView { bin: command.bin, percent, phase: StreamPhase::Spawn },
            (traces.streams)(command),
            t.cmd(command.announced()).push(percent),
        ).1,
        RequestView::BrowserCaches => sweep::browser_run(
            BrowserView::OpenHomes,
            traces.browsers,
            t,
        ).2,
        RequestView::Pycache => walk::walk_run(walk::pycache_start(), traces.pycache, t).2,
        RequestView::Thumbnails => walk::walk_run(walk::thumbnails_start(), traces.thumbnails, t).2,
        _ => t,
    }
}

/// Streamed commands and sweeps never take anything back from the log.
pub proof fn work_only_adds(traces: Traces, request: RequestView, t: TermView)
    ensures
        t.grew_to(traced_work(traces, request, t)),
{
    match request {
        RequestView::Stream { command, percent } => {
            let s = StreamView { bin: command.bin, percent, phase: StreamPhase::Spawn };
            let begun = t.cmd(command.announced()).push(percent);
            let events = (traces.streams)(command);
            assert(t.grew_to(begun));
            command::streamed_run_only_adds(s, events, begun);
            crate::terminal::growth_is_transitive(
                t,
                begun,
                command::stream_after(s, events, begun).1,
            );
        },
        RequestView::BrowserCaches => sweep::browser_sweep_only_adds(
            BrowserView::OpenHomes,
            traces.browsers,
            t,
        ),
        RequestView::Pycache => walk::walk_only_adds(walk::pycache_start(), traces.pycache, t),
        RequestView::Thumbnails => walk::walk_only_adds(
            walk::thumbnails_start(),
            traces.thumbnails,
            t,
        ),
        _ => {},
    }
}

/// Work of which every request only adds to the log.
pub open spec fn only_adds(work: spec_fn(RequestView, TermView) -> TermView) -> bool {
    forall|request: RequestView, t: TermView|
        t.grew_to(#[trigger] operation::worked(work, request, t))
}

proof fn lemma_run_extends(s: SessionView, cw: CleanWorld, uw: UpdateWorld, t: TermView)
    requires
        only_adds(cw.work),
        only_adds(uw.work),
    ensures
        t.grew_to(session_run(s, cw, uw, t).1),
    decreases session_rank(s),
{
    let (worked, reply) = match s.job {
        JobView::Clean(c) => (cw.after(c.phase, t), cw.reply(c.phase)),
        JobView::Update(phase) => (uw.after(phase, t), uw.reply(phase)),
    };
    let (next, logged) = session_next(s, reply, worked);
    assert(t.grew_to(worked));
    operations_only_add(s, reply, worked);
    crate::terminal::growth_is_transitive(t, worked, logged);
    if let Some(next) = next {
        lemma_run_extends(next, cw, uw, logged);
        crate::terminal::growth_is_transitive(t, logged, session_run(next, cw, uw, logged).1);
    }
}

/// The log of a whole operation extends the log before it, if all its work only adds.
pub proof fn operation_extends_the_log(
    operation: Operation,
    cw: CleanWorld,
    uw: UpdateWorld,
    t: TermView,
)
    requires
        only_adds(cw.work),
        only_adds(uw.work),
    ensures
        t.grew_to(session_log(operation, cw, uw, t)),
{
    let (s, begun) = session_begun(operation, t);
    assert(t.grew_to(begun));
    lemma_run_extends(s, cw, uw, begun);
    operations_run_to_their_end(operation, cw, uw, t);
    crate::terminal::growth_is_transitive(t, begun, session_log(operation, cw, uw, t));
}

/// Whatever happens while the work of an operation is done by streamed commands and sweeps, the log
/// of the whole operation extends the log before it.
pub proof fn traced_operation_extends_the_log(
    operation: Operation,
    cw: CleanWorld,
    uw: UpdateWorld,
    clean: Traces,
    update: Traces,
    t: TermView,
)
    requires
        cw.work == (|request: RequestView, t: TermView| traced_work(clean, request, t)),
        uw.work == (|request: RequestView, t: TermView| traced_work(update, request, t)),
    ensures
        t.grew_to(session_log(operation, cw, uw, t)),
{
    assert forall|request: RequestView, t: TermView|
        t.grew_to(#[trigger] operation::worked(cw.work, request, t)) by {
        work_only_adds(clean, request, t);
    }
    assert forall|request: RequestView, t: TermView|
        t.grew_to(#[trigger] operation::worked(uw.work, request, t)) by {
        work_only_adds(update, request, t);
    }
    operation_extends_the_log(operation, cw, uw, t);
}

/// A whole operation is the clean or the update that it is named after, or for a maintenance the
/// update and then the full clean, with the progress bar halfway in between; the failure that a clean
/// ends with is told, and the same two lines come last.
pub proof fn operations_are_made_of_cleans_and_updates(
    cw: CleanWorld,
    uw: UpdateWorld,
    t: TermView,
)
    ensures
        ({
            let whole = |operation: Operation|
                session_run(
                    session_begun(operation, t).0,
                    cw,
                    uw,
                    session_begun(operation, t).1,
                );
            let clean = |full: bool, t: TermView|
                cleaner::clean_run(cleaner::clean_start(full), cw, cleaner::quick_begun(t));
            let update = |t: TermView|
                updater::update_run(UpdatePhaseView::Sync, uw, updater::update_begun(t));
            let told = |t: TermView, failure: Option<Seq<char>>, label: Seq<char>|
                match failure {
                    Some(e) => t.err(label + e),
                    None => t,
                };
            let last = |t: TermView|
                t.info("─────────────────────────────────────"@).ok("Done! Refreshing stats..."@);
            let quick = clean(false, t);
            let full = clean(true, t);
            let first = update(t.info("══ One-Click Maintenance ════════════"@));
            let second = clean(true, first.2.nudge(50));
            &&& whole(Operation::QuickClean) == (
                quick.0,
                last(told(quick.2, quick.1, "Fatal error: "@)),
            )
            &&& whole(Operation::FullClean) == (
                full.0,
                last(told(full.2, full.1, "Fatal error: "@)),
            )
            &&& whole(Operation::Update) == (update(t).0, last(update(t).2))
            &&& whole(Operation::Maintenance) == (
                first.0 + second.0,
                last(told(second.2, second.1, "Clean error: "@)),
            )
        }),
{
    let begun = t.info("══ One-Click Maintenance ════════════"@);
    let halfway = updater::update_log(uw, updater::update_begun(begun)).nudge(50);
    operations_run_to_their_end(Operation::QuickClean, cw, uw, t);
    operations_run_to_their_end(Operation::FullClean, cw, uw, t);
    operations_run_to_their_end(Operation::Update, cw, uw, t);
    operations_run_to_their_end(Operation::Maintenance, cw, uw, t);
    cleaner::cleaning_runs_to_its_end(false, cw, t);
    cleaner::cleaning_runs_to_its_end(true, cw, t);
    cleaner::cleaning_runs_to_its_end(true, cw, halfway);
    updater::update_runs_to_its_end(uw, updater::update_begun(t));
    updater::update_runs_to_its_end(uw, updater::update_begun(begun));
}

} // verus!
