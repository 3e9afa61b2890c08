//! The walk through a directory tree that removes the directories of a given name.
use crate::sweep;
use crate::terminal::{Term, TermView};
use crate::text;
use vstd::prelude::*;
use vstd::string::*;

verus! {

/// What has to happen next in a walk.
pub enum WalkPhase {
    /// Open the directory at this path.
    Open(String),
    /// Read the next entry of the directory that was opened last and is not yet read to its end.
    Read,
    /// Remove the directory at this path with all that is in it.
    Remove(String),
}

/// What has to happen next in a walk, as a mathematical value.
pub enum WalkPhaseView {
    Open(Seq<char>),
    Read,
    Remove(Seq<char>),
}

impl View for WalkPhase {
    type V = WalkPhaseView;

    open spec fn view(&self) -> WalkPhaseView {
        match *self {
            WalkPhase::Open(path) => WalkPhaseView::Open(path@),
            WalkPhase::Read => WalkPhaseView::Read,
            WalkPhase::Remove(path) => WalkPhaseView::Remove(path@),
        }
    }
}

/// What happened in a walk.
pub enum WalkEvent {
    Opened,
    Unreadable,
    /// An entry was read. It has no name here if the name is not Unicode.
    Entry { path: String, name: Option<String>, is_dir: bool },
    EndOfDir,
    /// The removal was tried.
    Removed,
}

/// What happened in a walk, as a mathematical value.
pub enum WalkEventView {
    Opened,
    Unreadable,
    Entry { path: Seq<char>, name: Option<Seq<char>>, is_dir: bool },
    EndOfDir,
    Removed,
}

impl View for WalkEvent {
    type V = WalkEventView;

    open spec fn view(&self) -> WalkEventView {
        match *self {
            WalkEvent::Opened => WalkEventView::Opened,
            WalkEvent::Unreadable => WalkEventView::Unreadable,
            WalkEvent::Entry { path, name, is_dir } => WalkEventView::Entry {
                path: path@,
                name: text::text_in(name),
                is_dir,
            },
            WalkEvent::EndOfDir => WalkEventView::EndOfDir,
            WalkEvent::Removed => WalkEventView::Removed,
        }
    }
}

/// A path that lies inside a directory in which users' programs keep caches or thumbnails.
pub open spec fn inside_cache(path: Seq<char>) -> bool {
    text::occurs(path, "/.cache/"@) || text::occurs(path, "/.thumbnails/"@)
}

/// A walk under way.
pub struct Walk {
    target: String,
    caches_only: bool,
    max_depth: usize,
    open: usize,
    phase: WalkPhase,
}

/// Which directories a walk is to remove.
pub struct TargetView {
    /// Their name.
    pub name: Seq<char>,
    /// Whether only those inside a cache are meant.
    pub caches_only: bool,
}

impl TargetView {
    /// A directory of this name and path is one to remove.
    pub open spec fn means(self, name: Option<Seq<char>>, path: Seq<char>) -> bool {
        name == Some(self.name) && (self.caches_only ==> inside_cache(path))
    }
}

/// A walk under way, as a mathematical value.
pub struct WalkView {
    pub target: TargetView,
    /// How many levels below the root directories are still read.
    pub max_depth: nat,
    /// How many directories are open, one inside the other.
    pub open: nat,
    pub phase: WalkPhaseView,
}

impl View for Walk {
    type V = WalkView;

    closed spec fn view(&self) -> WalkView {
        WalkView {
            target: TargetView { name: self.target@, caches_only: self.caches_only },
            max_depth: self.max_depth as nat,
            open: self.open as nat,
            phase: self.phase@,
        }
    }
}

/// A walk goes on or has ended.
pub enum WalkStep {
    Continue(Walk),
    Done,
}

/// A walk that goes on or has ended, as a mathematical value.
pub enum WalkStepView {
    Continue(WalkView),
    Done,
}

impl View for WalkStep {
    type V = WalkStepView;

    open spec fn view(&self) -> WalkStepView {
        match *self {
            WalkStep::Continue(w) => WalkStepView::Continue(w@),
            WalkStep::Done => WalkStepView::Done,
        }
    }
}

/// The walk goes on in the directory that is open, or ends if none is.
pub open spec fn walk_back(w: WalkView, open: int) -> WalkStepView {
    if open <= 0 {
        WalkStepView::Done
    } else {
        WalkStepView::Continue(WalkView { open: open as nat, phase: WalkPhaseView::Read, ..w })
    }
}

/// What an event leads to: the walk goes on or ends, and the log may grow. An event that does not
/// belong to the phase changes nothing.
pub open spec fn walk_next(w: WalkView, event: WalkEventView, t: TermView) -> (
    WalkStepView,
    TermView,
) {
    let go = |phase: WalkPhaseView| WalkStepView::Continue(WalkView { phase, ..w });
    match (w.phase, event) {
        (WalkPhaseView::Open(_), WalkEventView::Opened) => (walk_back(w, w.open as int + 1), t),
        (WalkPhaseView::Open(_), WalkEventView::Unreadable) => (walk_back(w, w.open as int), t),
        (WalkPhaseView::Read, WalkEventView::Entry { path, name, is_dir }) => {
            if !is_dir {
                (go(WalkPhaseView::Read), t)
            } else if w.target.means(name, path) {
                if sweep::safe_path(path) {
                    (go(WalkPhaseView::Remove(path)), t)
                } else {
                    (go(WalkPhaseView::Read), sweep::refusal_told(t, path))
                }
            } else if w.open <= w.max_depth {
                (go(WalkPhaseView::Open(path)), t)
            } else {
                (go(WalkPhaseView::Read), t)
            }
        },
        (WalkPhaseView::Read, WalkEventView::EndOfDir) => (walk_back(w, w.open - 1), t),
        (WalkPhaseView::Remove(_), WalkEventView::Removed) => (go(WalkPhaseView::Read), t),
        _ => (WalkStepView::Continue(w), t),
    }
}

/// Begins to walk through the tree at `root`, to remove the directories named `target_name`.
/// Directories are read down to `max_depth` levels below the root.
pub fn walk_and_remove_named(root: &str, target_name: &str, max_depth: usize) -> (r: Walk)
    requires
        max_depth < usize::MAX,
    ensures
        r@ == (WalkView {
            target: TargetView { name: target_name@, caches_only: false },
            max_depth: max_depth as nat,
            open: 0,
            phase: WalkPhaseView::Open(root@),
        }),
{
    Walk {
        target: target_name.to_owned(),
        caches_only: false,
        max_depth,
        open: 0,
        phase: WalkPhase::Open(root.to_owned()),
    }
}

/// The beginning of the walk that removes Python's bytecode caches.
pub open spec fn pycache_start() -> WalkView {
    WalkView {
        target: TargetView { name: "__pycache__"@, caches_only: false },
        max_depth: 8,
        open: 0,
        phase: WalkPhaseView::Open("/home"@),
    }
}

/// The beginning of the walk that removes thumbnail caches: directories of that name inside a cache.
pub open spec fn thumbnails_start() -> WalkView {
    WalkView {
        target: TargetView { name: "thumbnails"@, caches_only: true },
        max_depth: 6,
        open: 0,
        phase: WalkPhaseView::Open("/home"@),
    }
}

/// Begins to remove Python's bytecode caches below `/home`.
pub fn clean_pycache() -> (r: Walk)
    ensures
        r@ == pycache_start(),
{
    walk_and_remove_named("/home", "__pycache__", 8)
}

/// Begins to remove the thumbnail caches below `/home`. A directory of that name that is not inside
/// a cache stays.
pub fn clean_thumbnails() -> (r: Walk)
    ensures
        r@ == thumbnails_start(),
{
    Walk {
        target: "thumbnails".to_owned(),
        caches_only: true,
        max_depth: 6,
        open: 0,
        phase: WalkPhase::Open("/home".to_owned()),
    }
}

/// The walk goes on in the directory that is open, or ends if none is.
fn back(target: String, caches_only: bool, max_depth: usize, open: usize) -> (r: WalkStep)
    requires
        open <= max_depth + 1,
        max_depth < usize::MAX,
    ensures
        r@ == if open == 0 {
            WalkStepView::Done
        } else {
            WalkStepView::Continue(
                WalkView {
                    target: TargetView { name: target@, caches_only },
                    max_depth: max_depth as nat,
                    open: open as nat,
                    phase: WalkPhaseView::Read,
                },
            )
        },
{
    if open == 0 {
        WalkStep::Done
    } else {
        WalkStep::Continue(Walk { target, caches_only, max_depth, open, phase: WalkPhase::Read })
    }
}

impl Walk {
    /// No more directories are open than the depth allows, and one can only be opened while there
    /// is room for it.
    #[verifier::type_invariant]
    spec fn wf(self) -> bool {
        &&& self.max_depth < usize::MAX
        &&& self.open <= self.max_depth + 1
        &&& self.phase is Open ==> self.open <= self.max_depth
    }

    /// What has to happen next.
    pub fn phase(&self) -> (r: &WalkPhase)
        ensures
            r@ == self@.phase,
    {
        &self.phase
    }

    /// Takes note of what happened.
    pub fn step(self, event: WalkEvent, term: &mut Term) -> (r: WalkStep)
        ensures
            (r@, final(term)@) == walk_next(self@, event@, old(term)@),
    {
        proof {
            use_type_invariant(&self);
        }
        let Walk { target, caches_only, max_depth, open, phase } = self;
        match (phase, event) {
            (WalkPhase::Open(_), WalkEvent::Opened) => back(target, caches_only, max_depth, open + 1),
            (WalkPhase::Open(_), WalkEvent::Unreadable) => back(target, caches_only, max_depth, open),
            (WalkPhase::Read, WalkEvent::Entry { path, name, is_dir }) => {
                let named = match name {
                    Some(n) => text::same_text(n.as_str(), target.as_str()),
                    None => false,
                };
                let doomed = named && (!caches_only || text::contains(path.as_str(), "/.cache/")
                    || text::contains(path.as_str(), "/.thumbnails/"));
                let next = if !is_dir {
                    WalkPhase::Read
                } else if doomed {
                    if sweep::safe_remove_dir(path.as_str(), term) {
                        WalkPhase::Remove(path)
                    } else {
                        WalkPhase::Read
                    }
                } else if open <= max_depth {
                    WalkPhase::Open(path)
                } else {
                    WalkPhase::Read
                };
                WalkStep::Continue(Walk { target, caches_only, max_depth, open, phase: next })
            },
            (WalkPhase::Read, WalkEvent::EndOfDir) => {
                let left: usize = if open > 0 {
                    open - 1
                } else {
                    0
                };
                back(target, caches_only, max_depth, left)
            },
            (WalkPhase::Remove(_), WalkEvent::Removed) => WalkStep::Continue(
                Walk { target, caches_only, max_depth, open, phase: WalkPhase::Read },
            ),
            (phase, _) => WalkStep::Continue(Walk { target, caches_only, max_depth, open, phase }),
        }
    }
}

/// An entry of a directory, with all that is below it.
pub struct FsEntry {
    pub path: Seq<char>,
    pub name: Option<Seq<char>>,
    pub kind: FsKind,
}

/// What an entry of a directory is.
pub enum FsKind {
    /// No directory.
    Leaf,
    /// A directory that cannot be read.
    Closed,
    /// A directory with these entries.
    Dir(Seq<FsEntry>),
}

/// Where events lead, the paths that are removed on the way, in order, and the log by then.
pub open spec fn walk_run(w: WalkView, events: Seq<WalkEventView>, t: TermView) -> (
    WalkStepView,
    Seq<Seq<char>>,
    TermView,
)
    decreases events.len(),
{
    if events.len() == 0 {
        (WalkStepView::Continue(w), Seq::empty(), t)
    } else {
        let (step, logged) = walk_next(w, events.first(), t);
        match step {
            WalkStepView::Done => (step, Seq::empty(), logged),
            WalkStepView::Continue(next) => {
                let (end, more, told) = walk_run(next, events.drop_first(), logged);
                match (w.phase, next.phase) {
                    (WalkPhaseView::Read, WalkPhaseView::Remove(path)) => (
                        end,
                        seq![path] + more,
                        told,
                    ),
                    _ => (end, more, told),
                }
            },
        }
    }
}

/// The paths of the directories that a walk is to remove at and below an entry, where directories are read
/// down to `room` levels from here. What is inside such a directory is not looked at.
pub open spec fn hits(e: FsEntry, target: TargetView, room: int) -> Seq<Seq<char>>
    decreases e,
{
    match e.kind {
        FsKind::Leaf => Seq::empty(),
        FsKind::Closed => if target.means(e.name, e.path) {
            seq![e.path]
        } else {
            Seq::empty()
        },
        FsKind::Dir(entries) => if target.means(e.name, e.path) {
            seq![e.path]
        } else if room > 0 {
            all_hits(entries, target, room - 1)
        } else {
            Seq::empty()
        },
    }
}

/// The paths of the directories that a walk is to remove at and below the entries, in order.
pub open spec fn all_hits(entries: Seq<FsEntry>, target: TargetView, room: int) -> Seq<Seq<char>>
    decreases entries,
{
    if entries.len() == 0 {
        Seq::empty()
    } else {
        all_hits(entries.drop_last(), target, room) + hits(entries.last(), target, room)
    }
}

/// The events that an entry gives rise to, from the moment when it is read to the moment when the
/// next one is.
pub open spec fn visit(e: FsEntry, target: TargetView, room: int) -> Seq<WalkEventView>
    decreases e,
{
    let is_dir = !(e.kind is Leaf);
    let read = seq![WalkEventView::Entry { path: e.path, name: e.name, is_dir }];
    if !is_dir {
        read
    } else if target.means(e.name, e.path) {
        if sweep::safe_path(e.path) {
            read + seq![WalkEventView::Removed]
        } else {
            read
        }
    } else if room > 0 {
        match e.kind {
            FsKind::Dir(entries) => read + (seq![WalkEventView::Opened] + visits(
                entries,
                target,
                room - 1,
            ) + seq![WalkEventView::EndOfDir]),
            _ => read + seq![WalkEventView::Unreadable],
        }
    } else {
        read
    }
}

/// The events that the entries of a directory give rise to.
pub open spec fn visits(entries: Seq<FsEntry>, target: TargetView, room: int) -> Seq<WalkEventView>
    decreases entries,
{
    if entries.len() == 0 {
        Seq::empty()
    } else {
        visits(entries.drop_last(), target, room) + visit(entries.last(), target, room)
    }
}

proof fn lemma_walk_in_parts(
    w: WalkView,
    first: Seq<WalkEventView>,
    second: Seq<WalkEventView>,
    t: TermView,
)
    requires
        walk_run(w, first, t).0 is Continue,
    ensures
        ({
            let (mid, removed, logged) = walk_run(w, first, t);
            let (end, more, told) = walk_run(mid->Continue_0, second, logged);
            walk_run(w, first + second, t) == (end, removed + more, told)
        }),
    decreases first.len(),
{
    let (mid, removed, logged) = walk_run(w, first, t);
    let (end, more, told) = walk_run(mid->Continue_0, second, logged);
    if first.len() == 0 {
        assert(first + second == second);
        assert(removed + more == more);
    } else {
        let (step, after) = walk_next(w, first.first(), t);
        assert((first + second).first() == first.first());
        assert((first + second).drop_first() == first.drop_first() + second);
        if let WalkStepView::Continue(next) = step {
            lemma_walk_in_parts(next, first.drop_first(), second, after);
            if let (WalkPhaseView::Read, WalkPhaseView::Remove(path)) = (w.phase, next.phase) {
                let later = walk_run(next, first.drop_first(), after).1;
                assert(seq![path] + (later + more) == (seq![path] + later) + more);
            }
        }
    }
}

/// One event, followed by what comes after it.
proof fn lemma_walk_one(w: WalkView, event: WalkEventView, t: TermView)
    ensures
        ({
            let (step, logged) = walk_next(w, event, t);
            walk_run(w, seq![event], t) == (
                step,
                match (w.phase, step) {
                    (WalkPhaseView::Read, WalkStepView::Continue(next)) => match next.phase {
                        WalkPhaseView::Remove(path) => seq![path],
                        _ => Seq::empty(),
                    },
                    _ => Seq::empty(),
                },
                logged,
            )
        }),
{
    let one = seq![event];
    let none = Seq::<WalkEventView>::empty();
    assert(one.first() == event);
    assert(one.drop_first() == none);
    let (step, logged) = walk_next(w, event, t);
    if let WalkStepView::Continue(next) = step {
        assert(walk_run(next, none, logged) == (step, Seq::<Seq<char>>::empty(), logged));
        if let WalkPhaseView::Remove(path) = next.phase {
            assert(seq![path] + Seq::<Seq<char>>::empty() == seq![path]);
        }
    }
}

/// An entry that is read leads to the removal of what is hit at and below it, and then back to
/// where it was read.
proof fn lemma_visit(w: WalkView, e: FsEntry, t: TermView)
    requires
        w.phase == WalkPhaseView::Read,
        w.open > 0,
    ensures
        ({
            let room = w.max_depth - w.open + 1;
            let found = hits(e, w.target, room);
            walk_run(w, visit(e, w.target, room), t) == (
                WalkStepView::Continue(w),
                sweep::removable(found),
                sweep::refusals_told(t, found),
            )
        }),
    decreases e,
{
    let room = w.max_depth - w.open + 1;
    let found = hits(e, w.target, room);
    let none = Seq::<Seq<char>>::empty();
    let is_dir = !(e.kind is Leaf);
    let read = WalkEventView::Entry { path: e.path, name: e.name, is_dir };
    lemma_walk_one(w, read, t);
    assert(sweep::removable(none) == none) by {
        reveal(Seq::filter);
    }
    assert(sweep::refusals_told(t, none) == t);
    sweep::lemma_one_refusal(t, e.path);
    if is_dir && w.target.means(e.name, e.path) {
        assert(found == seq![e.path]);
        if sweep::safe_path(e.path) {
            let w1 = WalkView { phase: WalkPhaseView::Remove(e.path), ..w };
            lemma_walk_one(w1, WalkEventView::Removed, t);
            lemma_walk_in_parts(w, seq![read], seq![WalkEventView::Removed], t);
            assert(seq![e.path] + none == seq![e.path]);
        }
    } else if is_dir && room > 0 {
        let w1 = WalkView { phase: WalkPhaseView::Open(e.path), ..w };
        match e.kind {
            FsKind::Dir(entries) => {
                let w2 = WalkView { open: w.open + 1, ..w };
                let opened = seq![WalkEventView::Opened];
                let closed = seq![WalkEventView::EndOfDir];
                let inside = visits(entries, w.target, room - 1);
                let told = sweep::refusals_told(t, found);
                lemma_visits(w2, entries, t);
                lemma_walk_one(w1, WalkEventView::Opened, t);
                lemma_walk_in_parts(w1, opened, inside, t);
                assert(none + sweep::removable(found) == sweep::removable(found));
                lemma_walk_one(w2, WalkEventView::EndOfDir, told);
                lemma_walk_in_parts(w1, opened + inside, closed, t);
                assert(sweep::removable(found) + none == sweep::removable(found));
                lemma_walk_in_parts(w, seq![read], opened + inside + closed, t);
            },
            _ => {
                lemma_walk_one(w1, WalkEventView::Unreadable, t);
                lemma_walk_in_parts(w, seq![read], seq![WalkEventView::Unreadable], t);
                assert(none + none == none);
            },
        }
    }
}

proof fn lemma_visits(w: WalkView, entries: Seq<FsEntry>, t: TermView)
    requires
        w.phase == WalkPhaseView::Read,
        w.open > 0,
    ensures
        ({
            let room = w.max_depth - w.open + 1;
            let found = all_hits(entries, w.target, room);
            walk_run(w, visits(entries, w.target, room), t) == (
                WalkStepView::Continue(w),
                sweep::removable(found),
                sweep::refusals_told(t, found),
            )
        }),
    decreases entries,
{
    let room = w.max_depth - w.open + 1;
    let none = Seq::<Seq<char>>::empty();
    if entries.len() == 0 {
        assert(sweep::removable(none) == none) by {
            reveal(Seq::filter);
        }
    } else {
        let before = all_hits(entries.drop_last(), w.target, room);
        let here = hits(entries.last(), w.target, room);
        lemma_visits(w, entries.drop_last(), t);
        lemma_visit(w, entries.last(), sweep::refusals_told(t, before));
        lemma_walk_in_parts(
            w,
            visits(entries.drop_last(), w.target, room),
            visit(entries.last(), w.target, room),
            t,
        );
        sweep::lemma_refusals_in_parts(t, before, here);
    }
}

/// A walk through a tree removes, in the order in which they are come upon, the directories that
/// it is to remove and in which removing is allowed, down to the given depth and none inside
/// another; those in which it is not allowed are named in the log. Then the walk ends.
pub proof fn walk_removes_every_hit(
    root: Seq<char>,
    target: TargetView,
    max_depth: nat,
    entries: Seq<FsEntry>,
    t: TermView,
)
    ensures
        walk_run(
            WalkView { target, max_depth, open: 0, phase: WalkPhaseView::Open(root) },
            seq![WalkEventView::Opened] + visits(entries, target, max_depth as int) + seq![
                WalkEventView::EndOfDir,
            ],
            t,
        ) == (
            WalkStepView::Done,
            sweep::removable(all_hits(entries, target, max_depth as int)),
            sweep::refusals_told(t, all_hits(entries, target, max_depth as int)),
        ),
{
    let w0 = WalkView { target, max_depth, open: 0, phase: WalkPhaseView::Open(root) };
    let w1 = WalkView { target, max_depth, open: 1, phase: WalkPhaseView::Read };
    let opened = seq![WalkEventView::Opened];
    let closed = seq![WalkEventView::EndOfDir];
    let inside = visits(entries, target, max_depth as int);
    let found = all_hits(entries, target, max_depth as int);
    let none = Seq::<Seq<char>>::empty();
    lemma_visits(w1, entries, t);
    lemma_walk_one(w0, WalkEventView::Opened, t);
    lemma_walk_in_parts(w0, opened, inside, t);
    assert(none + sweep::removable(found) == sweep::removable(found));
    lemma_walk_one(w1, WalkEventView::EndOfDir, sweep::refusals_told(t, found));
    lemma_walk_in_parts(w0, opened + inside, closed, t);
    assert(sweep::removable(found) + none == sweep::removable(found));
}

/// A walk whose root cannot be read ends at once.
pub proof fn walk_without_root_ends(
    root: Seq<char>,
    target: TargetView,
    max_depth: nat,
    t: TermView,
)
    ensures
        walk_next(
            WalkView { target, max_depth, open: 0, phase: WalkPhaseView::Open(root) },
            WalkEventView::Unreadable,
            t,
        ) == (WalkStepView::Done, t),
{
}

/// Whatever happens, a walk only ever sets out to remove a path in which removing is allowed.
pub proof fn walk_removes_only_safe_paths(w: WalkView, event: WalkEventView, t: TermView)
    requires
        w.phase matches WalkPhaseView::Remove(path) ==> sweep::safe_path(path),
    ensures
        walk_next(w, event, t).0 matches WalkStepView::Continue(next) ==> (
        next.phase matches WalkPhaseView::Remove(path) ==> sweep::safe_path(path)),
{
}

/// Whatever happens, every path that a walk removes is one in which removing is allowed, and one
/// inside a cache if only those are meant.
pub proof fn walk_removes_only_what_is_meant(
    w: WalkView,
    events: Seq<WalkEventView>,
    t: TermView,
    i: int,
)
    requires
        0 <= i < walk_run(w, events, t).1.len(),
    ensures
        sweep::safe_path(walk_run(w, events, t).1[i]),
        w.target.caches_only ==> inside_cache(walk_run(w, events, t).1[i]),
    decreases events.len(),
{
    let (step, logged) = walk_next(w, events.first(), t);
    if let WalkStepView::Continue(next) = step {
        let more = walk_run(next, events.drop_first(), logged).1;
        assert(next.target == w.target);
        match (w.phase, next.phase) {
            (WalkPhaseView::Read, WalkPhaseView::Remove(_)) => {
                if i > 0 {
                    assert(walk_run(w, events, t).1[i] == more[i - 1]);
                    walk_removes_only_what_is_meant(next, events.drop_first(), logged, i - 1);
                }
            },
            _ => walk_removes_only_what_is_meant(next, events.drop_first(), logged, i),
        }
    }
}

/// Whatever happens, removing thumbnails removes nothing but what is inside a cache of a user.
pub proof fn only_thumbnail_caches_are_removed(events: Seq<WalkEventView>, t: TermView, i: int)
    requires
        0 <= i < walk_run(thumbnails_start(), events, t).1.len(),
    ensures
        inside_cache(walk_run(thumbnails_start(), events, t).1[i]),
        sweep::safe_path(walk_run(thumbnails_start(), events, t).1[i]),
{
    walk_removes_only_what_is_meant(thumbnails_start(), events, t, i);
}

/// A walk never takes anything back from the log.
pub proof fn walk_only_adds(w: WalkView, events: Seq<WalkEventView>, t: TermView)
    ensures
        t.grew_to(walk_run(w, events, t).2),
    decreases events.len(),
{
    if events.len() > 0 {
        let (step, logged) = walk_next(w, events.first(), t);
        assert(t.grew_to(logged));
        if let WalkStepView::Continue(next) = step {
            walk_only_adds(next, events.drop_first(), logged);
            crate::terminal::growth_is_transitive(
                t,
                logged,
                walk_run(next, events.drop_first(), logged).2,
            );
        }
    }
}

/// What a walk looks for, and how deep, stays the same.
proof fn lemma_walk_keeps_its_aim(w: WalkView, events: Seq<WalkEventView>, t: TermView)
    ensures
        walk_run(w, events, t).0 matches WalkStepView::Continue(end) ==> end.target == w.target
            && end.max_depth == w.max_depth,
    decreases events.len(),
{
    if events.len() > 0 {
        let (step, logged) = walk_next(w, events.first(), t);
        if let WalkStepView::Continue(next) = step {
            lemma_walk_keeps_its_aim(next, events.drop_first(), logged);
        }
    }
}

/// A directory of the name that is looked for is removed wherever below `/home` it is come upon,
/// whatever else its path holds and however deep it lies, and nothing is logged about it.
pub proof fn named_directories_are_removed(w: WalkView, rest: Seq<char>, t: TermView)
    requires
        w.phase == WalkPhaseView::Read,
        !w.target.caches_only,
    ensures
        walk_next(
            w,
            WalkEventView::Entry {
                path: "/home/"@ + rest,
                name: Some(w.target.name),
                is_dir: true,
            },
            t,
        ) == (
            WalkStepView::Continue(
                WalkView {
                    target: w.target,
                    max_depth: w.max_depth,
                    open: w.open,
                    phase: WalkPhaseView::Remove("/home/"@ + rest),
                },
            ),
            t,
        ),
{
    sweep::everything_below_known_directories_is_safe(rest);
}

/// At whatever point a walk for Python's bytecode caches reads the next entry, a directory named
/// `__pycache__` below `/home` is removed, whatever else its path holds.
pub proof fn bytecode_caches_are_always_removed(
    events: Seq<WalkEventView>,
    t: TermView,
    rest: Seq<char>,
    now: TermView,
)
    ensures
        walk_run(pycache_start(), events, t).0 matches WalkStepView::Continue(w) ==> (w.phase
            == WalkPhaseView::Read ==> walk_next(
            w,
            WalkEventView::Entry {
                path: "/home/"@ + rest,
                name: Some("__pycache__"@),
                is_dir: true,
            },
            now,
        ) == (
            WalkStepView::Continue(
                WalkView { phase: WalkPhaseView::Remove("/home/"@ + rest), ..w },
            ),
            now,
        )),
{
    lemma_walk_keeps_its_aim(pycache_start(), events, t);
    sweep::everything_below_known_directories_is_safe(rest);
}

/// At whatever point a walk for thumbnails reads the next entry, a directory named `thumbnails` below
/// `/home` is removed if a directory `.cache` or `.thumbnails` stands on its path, and else not.
pub proof fn thumbnail_caches_are_always_removed(
    events: Seq<WalkEventView>,
    t: TermView,
    rest: Seq<char>,
    now: TermView,
)
    ensures
        walk_run(thumbnails_start(), events, t).0 matches WalkStepView::Continue(w) ==> (w.phase
            == WalkPhaseView::Read ==> {
            let path = "/home/"@ + rest;
            let inside = (exists|a: Seq<char>, b: Seq<char>|
                path == #[trigger] (a + "/.cache/"@ + b)) || (exists|a: Seq<char>, b: Seq<char>|
                path == #[trigger] (a + "/.thumbnails/"@ + b));
            let (step, logged) = walk_next(
                w,
                WalkEventView::Entry { path, name: Some("thumbnails"@), is_dir: true },
                now,
            );
            &&& logged == now
            &&& inside ==> step == WalkStepView::Continue(
                WalkView { phase: WalkPhaseView::Remove(path), ..w },
            )
            &&& !inside ==> (step matches WalkStepView::Continue(next)
                && !(next.phase is Remove))
        }),
{
    let path = "/home/"@ + rest;
    lemma_walk_keeps_its_aim(thumbnails_start(), events, t);
    sweep::everything_below_known_directories_is_safe(rest);
    text::occurrence_is_a_middle_part(path, "/.cache/"@);
    text::occurrence_is_a_middle_part(path, "/.thumbnails/"@);
}

/// A directory of another name is read in its turn as long as the depth allows it, and passed over
/// beyond; what is no directory is passed over. A directory that is read to its end, cannot be read,
/// or was removed, leads back to the one around it, and the walk ends with the outermost.
pub proof fn other_entries_are_walked_through(
    w: WalkView,
    path: Seq<char>,
    name: Option<Seq<char>>,
    t: TermView,
)
    ensures
        ({
            let at = |open: nat, phase: WalkPhaseView| WalkStepView::Continue(
                WalkView { target: w.target, max_depth: w.max_depth, open, phase },
            );
            &&& w.phase == WalkPhaseView::Read && name != Some(w.target.name) ==> walk_next(
                w,
                WalkEventView::Entry { path, name, is_dir: true },
                t,
            ) == if w.open <= w.max_depth {
                (at(w.open, WalkPhaseView::Open(path)), t)
            } else {
                (at(w.open, WalkPhaseView::Read), t)
            }
            &&& w.phase == WalkPhaseView::Read ==> walk_next(
                w,
                WalkEventView::Entry { path, name, is_dir: false },
                t,
            ) == (at(w.open, WalkPhaseView::Read), t)
            &&& w.phase is Open ==> walk_next(w, WalkEventView::Opened, t) == (
                at(w.open + 1, WalkPhaseView::Read),
                t,
            )
            &&& w.phase is Open ==> walk_next(w, WalkEventView::Unreadable, t) == if w.open == 0 {
                (WalkStepView::Done, t)
            } else {
                (at(w.open, WalkPhaseView::Read), t)
            }
            &&& w.phase == WalkPhaseView::Read && w.open > 0 ==> walk_next(
                w,
                WalkEventView::EndOfDir,
                t,
            ) == if w.open == 1 {
                (WalkStepView::Done, t)
            } else {
                (at((w.open - 1) as nat, WalkPhaseView::Read), t)
            }
            &&& w.phase is Remove ==> walk_next(w, WalkEventView::Removed, t) == (
                at(w.open, WalkPhaseView::Read),
                t,
            )
        }),
{
}

/// Entries each of which lies directly inside the one before it, the first directly inside a
/// directory with the given entries.
pub open spec fn leads_down(entries: Seq<FsEntry>, chain: Seq<FsEntry>) -> bool {
    &&& chain.len() > 0
    &&& entries.contains(chain[0])
    &&& forall|i: int|
        0 <= i < chain.len() - 1 ==> ((#[trigger] chain[i]).kind matches FsKind::Dir(inside)
            && inside.contains(chain[i + 1]))
}

proof fn lemma_hit_among(entries: Seq<FsEntry>, target: TargetView, room: int, k: int, path: Seq<char>)
    requires
        0 <= k < entries.len(),
        hits(entries[k], target, room).contains(path),
    ensures
        all_hits(entries, target, room).contains(path),
    decreases entries.len(),
{
    let before = all_hits(entries.drop_last(), target, room);
    let here = hits(entries.last(), target, room);
    if k == entries.len() - 1 {
        let i = choose|i: int| 0 <= i < here.len() && here[i] == path;
        assert((before + here)[before.len() + i] == path);
    } else {
        lemma_hit_among(entries.drop_last(), target, room, k, path);
        let i = choose|i: int| 0 <= i < before.len() && before[i] == path;
        assert((before + here)[i] == path);
    }
}

proof fn lemma_hit_below(entries: Seq<FsEntry>, chain: Seq<FsEntry>, target: TargetView, room: int)
    requires
        leads_down(entries, chain),
        !target.caches_only,
        chain.len() <= room + 1,
        forall|i: int| 0 <= i < chain.len() - 1 ==> (#[trigger] chain[i]).name != Some(target.name),
        chain.last().name == Some(target.name),
        !(chain.last().kind is Leaf),
    ensures
        all_hits(entries, target, room).contains(chain.last().path),
    decreases chain.len(),
{
    let e = chain[0];
    let path = chain.last().path;
    let k = choose|k: int| 0 <= k < entries.len() && entries[k] == e;
    if chain.len() == 1 {
        assert(hits(e, target, room) == seq![path]);
        assert(seq![path][0] == path);
    } else {
        assert(e.kind is Dir && e.name != Some(target.name));
        let inside = e.kind->Dir_0;
        let rest = chain.drop_first();
        assert(rest[0] == chain[1]);
        assert forall|i: int| 0 <= i < rest.len() - 1 implies ((#[trigger] rest[i]).kind matches FsKind::Dir(
            more,
        ) && more.contains(rest[i + 1])) && rest[i].name != Some(target.name) by {
            assert(rest[i] == chain[i + 1]);
            assert(rest[i + 1] == chain[i + 2]);
        }
        assert(rest.last() == chain.last());
        lemma_hit_below(inside, rest, target, room - 1);
        assert(hits(e, target, room) == all_hits(inside, target, room - 1));
    }
    lemma_hit_among(entries, target, room, k, path);
}

/// A walk through a tree removes every directory of the given name below `/home` that can be reached
/// through directories of other names within the given depth.
pub proof fn every_named_directory_in_reach_is_removed(
    root: Seq<char>,
    name: Seq<char>,
    max_depth: nat,
    entries: Seq<FsEntry>,
    chain: Seq<FsEntry>,
    rest: Seq<char>,
    t: TermView,
)
    requires
        leads_down(entries, chain),
        chain.len() <= max_depth + 1,
        forall|i: int| 0 <= i < chain.len() - 1 ==> (#[trigger] chain[i]).name != Some(name),
        chain.last().name == Some(name),
        !(chain.last().kind is Leaf),
        chain.last().path == "/home/"@ + rest,
    ensures
        ({
            let target = TargetView { name, caches_only: false };
            walk_run(
                WalkView { target, max_depth, open: 0, phase: WalkPhaseView::Open(root) },
                seq![WalkEventView::Opened] + visits(entries, target, max_depth as int) + seq![
                    WalkEventView::EndOfDir,
                ],
                t,
            ).1.contains("/home/"@ + rest)
        }),
{
    let target = TargetView { name, caches_only: false };
    let found = all_hits(entries, target, max_depth as int);
    let safe = |path: Seq<char>| sweep::safe_path(path);
    walk_removes_every_hit(root, target, max_depth, entries, t);
    lemma_hit_below(entries, chain, target, max_depth as int);
    sweep::everything_below_known_directories_is_safe(rest);
    let k = choose|k: int| 0 <= k < found.len() && found[k] == chain.last().path;
    assert(safe(found[k]));
    found.lemma_filter_contains(safe, k);
}

/// Whatever happens, every path that a walk removes is that of a directory of the name that is looked
/// for, as it was read.
pub proof fn only_named_directories_are_removed(
    w: WalkView,
    events: Seq<WalkEventView>,
    t: TermView,
    i: int,
) -> (k: int)
    requires
        0 <= i < walk_run(w, events, t).1.len(),
    ensures
        0 <= k < events.len(),
        events[k] == (WalkEventView::Entry {
            path: walk_run(w, events, t).1[i],
            name: Some(w.target.name),
            is_dir: true,
        }),
    decreases events.len(),
{
    let (step, logged) = walk_next(w, events.first(), t);
    let next = step->Continue_0;
    let rest = events.drop_first();
    let more = walk_run(next, rest, logged).1;
    let all = walk_run(w, events, t).1;
    match (w.phase, next.phase) {
        (WalkPhaseView::Read, WalkPhaseView::Remove(_)) => {
            if i == 0 {
                0
            } else {
                assert(all[i] == more[i - 1]);
                let k = only_named_directories_are_removed(next, rest, logged, i - 1);
                assert(events[k + 1] == rest[k]);
                k + 1
            }
        },
        _ => {
            let k = only_named_directories_are_removed(next, rest, logged, i);
            assert(events[k + 1] == rest[k]);
            k + 1
        },
    }
}

/// What happens in a walk, and what it asks for, is seen as it is.
pub proof fn walks_are_seen_as_they_are(path: String, name: String, is_dir: bool)
    ensures
        (WalkEvent::Entry { path, name: Some(name), is_dir })@ == (WalkEventView::Entry {
            path: path@,
            name: Some(name@),
            is_dir,
        }),
        (WalkEvent::Entry { path, name: None, is_dir })@ == (WalkEventView::Entry {
            path: path@,
            name: None,
            is_dir,
        }),
        WalkEvent::Opened@ == WalkEventView::Opened,
        WalkEvent::Unreadable@ == WalkEventView::Unreadable,
        WalkEvent::EndOfDir@ == WalkEventView::EndOfDir,
        WalkEvent::Removed@ == WalkEventView::Removed,
        WalkPhase::Open(path)@ == WalkPhaseView::Open(path@),
        WalkPhase::Read@ == WalkPhaseView::Read,
        WalkPhase::Remove(path)@ == WalkPhaseView::Remove(path@),
{
}

/// A directory of the name that is looked for is passed over where removing is not allowed, and the
/// log names it.
pub proof fn named_directories_elsewhere_are_refused(w: WalkView, path: Seq<char>, t: TermView)
    requires
        w.phase == WalkPhaseView::Read,
        !w.target.caches_only,
        !"/tmp/"@.is_prefix_of(path) && !"/var/tmp/"@.is_prefix_of(path) && !"/home/"@.is_prefix_of(
            path,
        ) && !"/root/"@.is_prefix_of(path) && !"/var/cache/"@.is_prefix_of(path),
    ensures
        walk_next(
            w,
            WalkEventView::Entry { path, name: Some(w.target.name), is_dir: true },
            t,
        ) == (WalkStepView::Continue(w), t.err("Skipped unsafe path: "@ + path)),
{
}

} // verus!
