//! The sweeps over directories: which of the things found there are removed.
use crate::terminal::{Term, TermView};
use crate::text;
use vstd::prelude::*;
use vstd::string::*;
use vstd::utf8::*;

verus! {

/// A path below one of the directories in which removing is allowed.
pub open spec fn safe_path(path: Seq<char>) -> bool {
    ||| "/tmp/"@.is_prefix_of(path)
    ||| "/var/tmp/"@.is_prefix_of(path)
    ||| "/home/"@.is_prefix_of(path)
    ||| "/root/"@.is_prefix_of(path)
    ||| "/var/cache/"@.is_prefix_of(path)
}

/// A path outside those directories is named in the log.
pub open spec fn refusal_told(t: TermView, path: Seq<char>) -> TermView {
    if safe_path(path) {
        t
    } else {
        t.err("Skipped unsafe path: "@ + path)
    }
}

/// Whether the directory at `path` is to be removed with all that is in it. If not, the log
/// says so.
pub fn safe_remove_dir(path: &str, term: &mut Term) -> (r: bool)
    ensures
        r == safe_path(path@),
        final(term)@ == refusal_told(old(term)@, path@),
{
    let safe = text::starts_with(path, "/tmp/") || text::starts_with(path, "/var/tmp/")
        || text::starts_with(path, "/home/") || text::starts_with(path, "/root/")
        || text::starts_with(path, "/var/cache/");
    if !safe {
        term.err(text::concat2("Skipped unsafe path: ", path).as_str());
    }
    safe
}

/// The directory for temporary files.
pub fn tmp_path() -> (r: &'static str)
    ensures
        r@ == "/tmp"@,
{
    "/tmp"
}

/// The path of the entry of `/tmp` that has this name. Names and paths of files are bytes.
pub open spec fn tmp_entry(name: Seq<u8>) -> Seq<u8> {
    encode_utf8("/tmp/"@) + name
}

/// The path of the entry of `/tmp` that has this name.
fn tmp_entry_path(name: Vec<u8>) -> (r: Vec<u8>)
    ensures
        r@ == tmp_entry(name@),
{
    let mut r = "/tmp/".as_bytes_vec();
    let mut rest = name;
    r.append(&mut rest);
    r
}

/// What has to happen next while temporary files are cleared.
#[derive(Debug, PartialEq, Eq)]
pub enum TmpSweep {
    /// Open the directory `/tmp`.
    Open,
    /// Read its next entry.
    Read,
    /// Remove the directory at this path with all that is in it.
    RemoveTree { path: Vec<u8> },
    /// Remove what is at this path, no directory.
    RemoveFile { path: Vec<u8> },
    /// The directory is done.
    Finished,
}

/// What has to happen next while temporary files are cleared, as a mathematical value.
pub enum TmpView {
    Open,
    Read,
    RemoveTree { path: Seq<u8> },
    RemoveFile { path: Seq<u8> },
    Finished,
}

impl View for TmpSweep {
    type V = TmpView;

    open spec fn view(&self) -> TmpView {
        match *self {
            TmpSweep::Open => TmpView::Open,
            TmpSweep::Read => TmpView::Read,
            TmpSweep::RemoveTree { path } => TmpView::RemoveTree { path: path@ },
            TmpSweep::RemoveFile { path } => TmpView::RemoveFile { path: path@ },
            TmpSweep::Finished => TmpView::Finished,
        }
    }
}

/// What happened while temporary files were cleared.
#[derive(Debug)]
pub enum TmpEvent {
    Opened,
    Unreadable,
    /// An entry of `/tmp` was read, with this name.
    Entry { name: Vec<u8>, is_dir: bool },
    EndOfDir,
    /// The removal was tried. Files in use may stay.
    Removed,
}

/// What happened while temporary files were cleared, as a mathematical value.
pub enum TmpEventView {
    Opened,
    Unreadable,
    Entry { name: Seq<u8>, is_dir: bool },
    EndOfDir,
    Removed,
}

impl View for TmpEvent {
    type V = TmpEventView;

    open spec fn view(&self) -> TmpEventView {
        match *self {
            TmpEvent::Opened => TmpEventView::Opened,
            TmpEvent::Unreadable => TmpEventView::Unreadable,
            TmpEvent::Entry { name, is_dir } => TmpEventView::Entry { name: name@, is_dir },
            TmpEvent::EndOfDir => TmpEventView::EndOfDir,
            TmpEvent::Removed => TmpEventView::Removed,
        }
    }
}

/// The removal of an entry of `/tmp`.
pub open spec fn tmp_removal(name: Seq<u8>, is_dir: bool) -> TmpView {
    if is_dir {
        TmpView::RemoveTree { path: tmp_entry(name) }
    } else {
        TmpView::RemoveFile { path: tmp_entry(name) }
    }
}

/// What an event leads to. An event that does not belong to the step changes nothing.
pub open spec fn tmp_next(s: TmpView, event: TmpEventView) -> TmpView {
    match (s, event) {
        (TmpView::Open, TmpEventView::Opened) => TmpView::Read,
        (TmpView::Open, TmpEventView::Unreadable) => TmpView::Finished,
        (TmpView::Read, TmpEventView::Entry { name, is_dir }) => tmp_removal(name, is_dir),
        (TmpView::Read, TmpEventView::EndOfDir) => TmpView::Finished,
        (TmpView::RemoveTree { .. }, TmpEventView::Removed) => TmpView::Read,
        (TmpView::RemoveFile { .. }, TmpEventView::Removed) => TmpView::Read,
        _ => s,
    }
}

/// Begins to clear `/tmp`: what is in it goes, the directory itself stays.
pub fn clear_tmp() -> (r: TmpSweep)
    ensures
        r@ == TmpView::Open,
{
    TmpSweep::Open
}

impl TmpSweep {
    /// Takes note of what happened.
    pub fn step(self, event: TmpEvent) -> (r: TmpSweep)
        ensures
            r@ == tmp_next(self@, event@),
    {
        match (self, event) {
            (TmpSweep::Open, TmpEvent::Opened) => TmpSweep::Read,
            (TmpSweep::Open, TmpEvent::Unreadable) => TmpSweep::Finished,
            (TmpSweep::Read, TmpEvent::Entry { name, is_dir }) => {
                let path = tmp_entry_path(name);
                if is_dir {
                    TmpSweep::RemoveTree { path }
                } else {
                    TmpSweep::RemoveFile { path }
                }
            },
            (TmpSweep::Read, TmpEvent::EndOfDir) => TmpSweep::Finished,
            (TmpSweep::RemoveTree { .. }, TmpEvent::Removed) => TmpSweep::Read,
            (TmpSweep::RemoveFile { .. }, TmpEvent::Removed) => TmpSweep::Read,
            (s, _) => s,
        }
    }
}

/// Where events lead, and the removals on the way, in order.
pub open spec fn tmp_run(s: TmpView, events: Seq<TmpEventView>) -> (TmpView, Seq<TmpView>)
    decreases events.len(),
{
    if events.len() == 0 {
        (s, Seq::empty())
    } else {
        let next = tmp_next(s, events.first());
        let (end, more) = tmp_run(next, events.drop_first());
        if s is Read && (next is RemoveTree || next is RemoveFile) {
            (end, seq![next] + more)
        } else {
            (end, more)
        }
    }
}

/// The events of `/tmp` with the given entries, each with its name and whether it is a directory;
/// `None` if it cannot be read.
pub open spec fn tmp_events(entries: Option<Seq<(Seq<u8>, bool)>>) -> Seq<TmpEventView> {
    match entries {
        Some(list) => seq![TmpEventView::Opened] + tmp_entry_events(list) + seq![
            TmpEventView::EndOfDir,
        ],
        None => seq![TmpEventView::Unreadable],
    }
}

/// The events of the entries of a directory.
pub open spec fn tmp_entry_events(list: Seq<(Seq<u8>, bool)>) -> Seq<TmpEventView>
    decreases list.len(),
{
    if list.len() == 0 {
        Seq::empty()
    } else {
        let (name, is_dir) = list.first();
        seq![TmpEventView::Entry { name, is_dir }, TmpEventView::Removed] + tmp_entry_events(
            list.drop_first(),
        )
    }
}

/// The removals that the entries of `/tmp` call for, one for each entry.
pub open spec fn tmp_doomed(entries: Option<Seq<(Seq<u8>, bool)>>) -> Seq<TmpView> {
    match entries {
        Some(list) => list.map_values(|e: (Seq<u8>, bool)| tmp_removal(e.0, e.1)),
        None => Seq::empty(),
    }
}

proof fn lemma_tmp_in_parts(s: TmpView, first: Seq<TmpEventView>, second: Seq<TmpEventView>)
    ensures
        ({
            let (mid, removed) = tmp_run(s, first);
            let (end, more) = tmp_run(mid, second);
            tmp_run(s, first + second) == (end, removed + more)
        }),
    decreases first.len(),
{
    let (mid, removed) = tmp_run(s, first);
    let (end, more) = tmp_run(mid, second);
    if first.len() == 0 {
        assert(first + second == second);
        assert(removed + more == more);
    } else {
        let next = tmp_next(s, first.first());
        lemma_tmp_in_parts(next, first.drop_first(), second);
        assert((first + second).first() == first.first());
        assert((first + second).drop_first() == first.drop_first() + second);
        let later = tmp_run(next, first.drop_first()).1;
        assert(seq![next] + (later + more) == (seq![next] + later) + more);
    }
}

proof fn lemma_tmp_entries(list: Seq<(Seq<u8>, bool)>)
    ensures
        tmp_run(TmpView::Read, tmp_entry_events(list)) == (TmpView::Read, tmp_doomed(Some(list))),
    decreases list.len(),
{
    let read = TmpView::Read;
    if list.len() == 0 {
        assert(tmp_doomed(Some(list)) == Seq::<TmpView>::empty());
    } else {
        let (name, is_dir) = list.first();
        let here = seq![TmpEventView::Entry { name, is_dir }, TmpEventView::Removed];
        let rest = tmp_entry_events(list.drop_first());
        let removal = tmp_removal(name, is_dir);
        lemma_tmp_entries(list.drop_first());
        lemma_tmp_in_parts(read, here, rest);
        assert(here.drop_first() == seq![TmpEventView::Removed]);
        assert(here.drop_first().drop_first() == Seq::<TmpEventView>::empty());
        reveal_with_fuel(tmp_run, 3);
        assert(tmp_run(read, here) == (read, seq![removal]));
        assert(tmp_doomed(Some(list)) == seq![removal] + tmp_doomed(Some(list.drop_first())));
    }
}

/// Clearing temporary files removes every entry of `/tmp`, each once and in the order in which it
/// was read, directories with all that is in them, and then ends.
pub proof fn clearing_removes_every_entry(entries: Option<Seq<(Seq<u8>, bool)>>)
    ensures
        tmp_run(TmpView::Open, tmp_events(entries)) == (TmpView::Finished, tmp_doomed(entries)),
{
    reveal_with_fuel(tmp_run, 2);
    let opened = seq![TmpEventView::Opened];
    let closed = seq![TmpEventView::EndOfDir];
    let none = Seq::<TmpView>::empty();
    assert(opened.drop_first() == Seq::<TmpEventView>::empty());
    assert(closed.drop_first() == Seq::<TmpEventView>::empty());
    match entries {
        Some(list) => {
            lemma_tmp_entries(list);
            lemma_tmp_in_parts(TmpView::Open, opened, tmp_entry_events(list));
            lemma_tmp_in_parts(TmpView::Open, opened + tmp_entry_events(list), closed);
            assert(none + tmp_doomed(entries) + none == tmp_doomed(entries));
        },
        None => {
            assert(seq![TmpEventView::Unreadable].drop_first() == Seq::<TmpEventView>::empty());
        },
    }
}

/// The removal is that of an entry of `/tmp` that was read.
pub open spec fn was_read(events: Seq<TmpEventView>, removal: TmpView) -> bool {
    exists|k: int|
        0 <= k < events.len() && (#[trigger] events[k] matches TmpEventView::Entry { name, is_dir }
            && removal == tmp_removal(name, is_dir))
}

/// Whatever happens, every removal is that of an entry of `/tmp` that was read, at its own path.
pub proof fn clearing_removes_only_what_was_read(s: TmpView, events: Seq<TmpEventView>, i: int)
    requires
        0 <= i < tmp_run(s, events).1.len(),
    ensures
        was_read(events, tmp_run(s, events).1[i]),
    decreases events.len(),
{
    let next = tmp_next(s, events.first());
    let rest = events.drop_first();
    let more = tmp_run(next, rest).1;
    let here = s is Read && (next is RemoveTree || next is RemoveFile);
    let removal = tmp_run(s, events).1[i];
    if here && i == 0 {
        assert(removal == next);
        assert(events[0] matches TmpEventView::Entry { name, is_dir } && removal == tmp_removal(
            name,
            is_dir,
        ));
    } else {
        let at = if here {
            i - 1
        } else {
            i
        };
        assert(removal == more[at]);
        clearing_removes_only_what_was_read(next, rest, at);
        let k = choose|k: int|
            0 <= k < rest.len() && (#[trigger] rest[k] matches TmpEventView::Entry { name, is_dir }
                && removal == tmp_removal(name, is_dir));
        assert(events[k + 1] == rest[k]);
    }
}

/// Whatever happens, every path that is removed lies below `/tmp`.
pub proof fn clearing_stays_below_tmp(s: TmpView, events: Seq<TmpEventView>, i: int)
    requires
        0 <= i < tmp_run(s, events).1.len(),
    ensures
        match tmp_run(s, events).1[i] {
            TmpView::RemoveTree { path } => encode_utf8("/tmp/"@).is_prefix_of(path),
            TmpView::RemoveFile { path } => encode_utf8("/tmp/"@).is_prefix_of(path),
            _ => false,
        },
{
    clearing_removes_only_what_was_read(s, events, i);
    let k = choose|k: int|
        0 <= k < events.len() && (#[trigger] events[k] matches TmpEventView::Entry { name, is_dir }
            && tmp_run(s, events).1[i] == tmp_removal(name, is_dir));
    if let TmpEventView::Entry { name, .. } = events[k] {
        let dir = encode_utf8("/tmp/"@);
        assert(tmp_entry(name).take(dir.len() as int) == dir);
    }
}

/// A cache directory of a browser in a user's home.
#[derive(Debug)]
pub enum CacheDir {
    FirefoxCache,
    /// The cache inside the Firefox profile of this name.
    Profile(String),
    Chromium,
    Chrome,
}

/// A cache directory of a browser in a user's home, as a mathematical value.
pub enum CacheDirView {
    FirefoxCache,
    Profile(Seq<char>),
    Chromium,
    Chrome,
}

impl View for CacheDir {
    type V = CacheDirView;

    open spec fn view(&self) -> CacheDirView {
        match *self {
            CacheDir::FirefoxCache => CacheDirView::FirefoxCache,
            CacheDir::Profile(name) => CacheDirView::Profile(name@),
            CacheDir::Chromium => CacheDirView::Chromium,
            CacheDir::Chrome => CacheDirView::Chrome,
        }
    }
}

impl CacheDirView {
    /// The path, seen from the user's home.
    pub open spec fn rel(self) -> Seq<char> {
        match self {
            CacheDirView::FirefoxCache => ".cache/mozilla/firefox"@,
            CacheDirView::Profile(name) => ".mozilla/firefox/"@ + name + "/Cache2"@,
            CacheDirView::Chromium => ".cache/chromium"@,
            CacheDirView::Chrome => ".cache/google-chrome"@,
        }
    }
}

impl CacheDir {
    /// The path, seen from the user's home.
    pub fn rel(&self) -> (r: String)
        ensures
            r@ == self@.rel(),
    {
        match self {
            CacheDir::FirefoxCache => ".cache/mozilla/firefox".to_owned(),
            CacheDir::Profile(name) => text::concat3(".mozilla/firefox/", name.as_str(), "/Cache2"),
            CacheDir::Chromium => ".cache/chromium".to_owned(),
            CacheDir::Chrome => ".cache/google-chrome".to_owned(),
        }
    }
}

/// Where Firefox keeps its profiles, seen from the user's home.
pub fn profiles_rel() -> (r: &'static str)
    ensures
        r@ == ".mozilla/firefox"@,
{
    ".mozilla/firefox"
}

/// The path of something that lies at the relative path `rel` below `base`.
pub open spec fn path_below(base: Seq<char>, rel: Seq<char>) -> Seq<char> {
    if base.len() == 0 || base.last() == '/' {
        base + rel
    } else {
        base + "/"@ + rel
    }
}

/// The path of something that lies at the relative path `rel` below `base`.
pub fn join_path(base: &str, rel: &str) -> (r: String)
    ensures
        r@ == path_below(base@, rel@),
{
    let cs = text::chars_of(base);
    if cs.len() == 0 || cs[cs.len() - 1] == '/' {
        text::concat2(base, rel)
    } else {
        text::concat3(base, "/", rel)
    }
}

/// What has to happen next while browser caches are cleaned.
pub enum BrowserSweep {
    /// Open the directory `/home`.
    OpenHomes,
    /// Read its next entry.
    Read,
    /// Open the directory in which Firefox keeps the profiles of this home.
    OpenProfiles { home: String },
    /// Read its next entry.
    ReadProfile { home: String },
    /// Find out whether the home directory `home` holds the directory.
    Check { home: String, dir: CacheDir },
    /// Remove that directory with all that is in it.
    Remove { home: String, dir: CacheDir },
    /// All homes are done.
    Finished,
}

/// What has to happen next while browser caches are cleaned, as a mathematical value.
pub enum BrowserView {
    OpenHomes,
    Read,
    OpenProfiles { home: Seq<char> },
    ReadProfile { home: Seq<char> },
    Check { home: Seq<char>, dir: CacheDirView },
    Remove { home: Seq<char>, dir: CacheDirView },
    Finished,
}

impl View for BrowserSweep {
    type V = BrowserView;

    open spec fn view(&self) -> BrowserView {
        match *self {
            BrowserSweep::OpenHomes => BrowserView::OpenHomes,
            BrowserSweep::Read => BrowserView::Read,
            BrowserSweep::OpenProfiles { home } => BrowserView::OpenProfiles { home: home@ },
            BrowserSweep::ReadProfile { home } => BrowserView::ReadProfile { home: home@ },
            BrowserSweep::Check { home, dir } => BrowserView::Check { home: home@, dir: dir@ },
            BrowserSweep::Remove { home, dir } => BrowserView::Remove { home: home@, dir: dir@ },
            BrowserSweep::Finished => BrowserView::Finished,
        }
    }
}

/// What happened while browser caches were cleaned.
pub enum BrowserEvent {
    Opened,
    Unreadable,
    /// An entry of `/home` was read, with this path.
    Home(String),
    /// An entry among the profiles was read, with this name.
    Profile(String),
    EndOfDir,
    Exists(bool),
    /// The removal was tried.
    Removed,
}

/// What happened while browser caches were cleaned, as a mathematical value.
pub enum BrowserEventView {
    Opened,
    Unreadable,
    Home(Seq<char>),
    Profile(Seq<char>),
    EndOfDir,
    Exists(bool),
    Removed,
}

impl View for BrowserEvent {
    type V = BrowserEventView;

    open spec fn view(&self) -> BrowserEventView {
        match *self {
            BrowserEvent::Opened => BrowserEventView::Opened,
            BrowserEvent::Unreadable => BrowserEventView::Unreadable,
            BrowserEvent::Home(path) => BrowserEventView::Home(path@),
            BrowserEvent::Profile(name) => BrowserEventView::Profile(name@),
            BrowserEvent::EndOfDir => BrowserEventView::EndOfDir,
            BrowserEvent::Exists(b) => BrowserEventView::Exists(b),
            BrowserEvent::Removed => BrowserEventView::Removed,
        }
    }
}

/// What comes after a directory of a home: Firefox's cache, then the cache in each of its profiles,
/// then Chromium, then Chrome.
pub open spec fn browser_after(home: Seq<char>, dir: CacheDirView) -> BrowserView {
    match dir {
        CacheDirView::FirefoxCache => BrowserView::OpenProfiles { home },
        CacheDirView::Profile(_) => BrowserView::ReadProfile { home },
        CacheDirView::Chromium => BrowserView::Check { home, dir: CacheDirView::Chrome },
        CacheDirView::Chrome => BrowserView::Read,
    }
}

/// What an event leads to. An event that does not belong to the step changes nothing.
pub open spec fn browser_next(s: BrowserView, event: BrowserEventView, t: TermView) -> (
    BrowserView,
    TermView,
) {
    match (s, event) {
        (BrowserView::OpenHomes, BrowserEventView::Opened) => (BrowserView::Read, t),
        (BrowserView::OpenHomes, BrowserEventView::Unreadable) => (BrowserView::Finished, t),
        (BrowserView::Read, BrowserEventView::Home(home)) => (
            BrowserView::Check { home, dir: CacheDirView::FirefoxCache },
            t,
        ),
        (BrowserView::Read, BrowserEventView::EndOfDir) => (BrowserView::Finished, t),
        (BrowserView::OpenProfiles { home }, BrowserEventView::Opened) => (
            BrowserView::ReadProfile { home },
            t,
        ),
        (BrowserView::OpenProfiles { home }, BrowserEventView::Unreadable) => (
            BrowserView::Check { home, dir: CacheDirView::Chromium },
            t,
        ),
        (BrowserView::ReadProfile { home }, BrowserEventView::Profile(name)) => (
            BrowserView::Check { home, dir: CacheDirView::Profile(name) },
            t,
        ),
        (BrowserView::ReadProfile { home }, BrowserEventView::EndOfDir) => (
            BrowserView::Check { home, dir: CacheDirView::Chromium },
            t,
        ),
        (BrowserView::Check { home, dir }, BrowserEventView::Exists(exists)) => {
            let path = path_below(home, dir.rel());
            if !exists {
                (browser_after(home, dir), t)
            } else if safe_path(path) {
                (BrowserView::Remove { home, dir }, t)
            } else {
                (browser_after(home, dir), refusal_told(t, path))
            }
        },
        (BrowserView::Remove { home, dir }, BrowserEventView::Removed) => (
            browser_after(home, dir),
            t,
        ),
        _ => (s, t),
    }
}

/// Begins to clean the browser caches of all users.
pub fn clean_browser_caches() -> (r: BrowserSweep)
    ensures
        r@ == BrowserView::OpenHomes,
{
    BrowserSweep::OpenHomes
}

/// What comes after a directory of a home.
fn after_cache_dir(home: String, dir: CacheDir) -> (r: BrowserSweep)
    ensures
        r@ == browser_after(home@, dir@),
{
    match dir {
        CacheDir::FirefoxCache => BrowserSweep::OpenProfiles { home },
        CacheDir::Profile(_) => BrowserSweep::ReadProfile { home },
        CacheDir::Chromium => BrowserSweep::Check { home, dir: CacheDir::Chrome },
        CacheDir::Chrome => BrowserSweep::Read,
    }
}

impl BrowserSweep {
    /// The path that is to be looked at or removed, if there is one.
    pub fn path(&self) -> (r: Option<String>)
        ensures
            text::text_in(r) == match self@ {
                BrowserView::OpenProfiles { home } => Some(
                    path_below(home, ".mozilla/firefox"@),
                ),
                BrowserView::Check { home, dir } => Some(path_below(home, dir.rel())),
                BrowserView::Remove { home, dir } => Some(path_below(home, dir.rel())),
                _ => None,
            },
    {
        match self {
            BrowserSweep::OpenProfiles { home } => Some(join_path(home.as_str(), profiles_rel())),
            BrowserSweep::Check { home, dir } => Some(
                join_path(home.as_str(), dir.rel().as_str()),
            ),
            BrowserSweep::Remove { home, dir } => Some(
                join_path(home.as_str(), dir.rel().as_str()),
            ),
            _ => None,
        }
    }

    /// Takes note of what happened.
    pub fn step(self, event: BrowserEvent, term: &mut Term) -> (r: BrowserSweep)
        ensures
            (r@, final(term)@) == browser_next(self@, event@, old(term)@),
    {
        match (self, event) {
            (BrowserSweep::OpenHomes, BrowserEvent::Opened) => BrowserSweep::Read,
            (BrowserSweep::OpenHomes, BrowserEvent::Unreadable) => BrowserSweep::Finished,
            (BrowserSweep::Read, BrowserEvent::Home(home)) => BrowserSweep::Check {
                home,
                dir: CacheDir::FirefoxCache,
            },
            (BrowserSweep::Read, BrowserEvent::EndOfDir) => BrowserSweep::Finished,
            (BrowserSweep::OpenProfiles { home }, BrowserEvent::Opened) => {
                BrowserSweep::ReadProfile { home }
            },
            (BrowserSweep::OpenProfiles { home }, BrowserEvent::Unreadable) => BrowserSweep::Check {
                home,
                dir: CacheDir::Chromium,
            },
            (BrowserSweep::ReadProfile { home }, BrowserEvent::Profile(name)) => {
                BrowserSweep::Check { home, dir: CacheDir::Profile(name) }
            },
            (BrowserSweep::ReadProfile { home }, BrowserEvent::EndOfDir) => BrowserSweep::Check {
                home,
                dir: CacheDir::Chromium,
            },
            (BrowserSweep::Check { home, dir }, BrowserEvent::Exists(exists)) => {
                if exists {
                    let path = join_path(home.as_str(), dir.rel().as_str());
                    if safe_remove_dir(path.as_str(), term) {
                        BrowserSweep::Remove { home, dir }
                    } else {
                        after_cache_dir(home, dir)
                    }
                } else {
                    after_cache_dir(home, dir)
                }
            },
            (BrowserSweep::Remove { home, dir }, BrowserEvent::Removed) => after_cache_dir(
                home,
                dir,
            ),
            (s, _) => s,
        }
    }
}

/// Where events lead, the paths that are removed on the way, in order, and the log by then.
pub open spec fn browser_run(s: BrowserView, events: Seq<BrowserEventView>, t: TermView) -> (
    BrowserView,
    Seq<Seq<char>>,
    TermView,
)
    decreases events.len(),
{
    if events.len() == 0 {
        (s, Seq::empty(), t)
    } else {
        let (next, logged) = browser_next(s, events.first(), t);
        let (end, more, told) = browser_run(next, events.drop_first(), logged);
        match (s, next) {
            (BrowserView::Check { .. }, BrowserView::Remove { home, dir }) => (
                end,
                seq![path_below(home, dir.rel())] + more,
                told,
            ),
            _ => (end, more, told),
        }
    }
}

/// A home directory with its Firefox profiles, by name; `None` if they cannot be read.
pub struct HomeView {
    pub path: Seq<char>,
    pub profiles: Option<Seq<Seq<char>>>,
}

/// The events of one directory, where `present` tells which there are.
pub open spec fn check_events(
    home: Seq<char>,
    dir: CacheDirView,
    present: spec_fn(Seq<char>) -> bool,
) -> Seq<BrowserEventView> {
    let path = path_below(home, dir.rel());
    if !present(path) {
        seq![BrowserEventView::Exists(false)]
    } else if safe_path(path) {
        seq![BrowserEventView::Exists(true), BrowserEventView::Removed]
    } else {
        seq![BrowserEventView::Exists(true)]
    }
}

/// The path of one directory, if there is one.
pub open spec fn dir_found(
    home: Seq<char>,
    dir: CacheDirView,
    present: spec_fn(Seq<char>) -> bool,
) -> Seq<Seq<char>> {
    let path = path_below(home, dir.rel());
    if present(path) {
        seq![path]
    } else {
        Seq::empty()
    }
}

/// The events of the profiles of a home.
pub open spec fn profile_events(
    home: Seq<char>,
    names: Seq<Seq<char>>,
    present: spec_fn(Seq<char>) -> bool,
) -> Seq<BrowserEventView>
    decreases names.len(),
{
    if names.len() == 0 {
        Seq::empty()
    } else {
        profile_events(home, names.drop_last(), present) + (seq![
            BrowserEventView::Profile(names.last()),
        ] + check_events(home, CacheDirView::Profile(names.last()), present))
    }
}

/// The caches that there are in the profiles of a home, in order.
pub open spec fn profiles_found(
    home: Seq<char>,
    names: Seq<Seq<char>>,
    present: spec_fn(Seq<char>) -> bool,
) -> Seq<Seq<char>>
    decreases names.len(),
{
    if names.len() == 0 {
        Seq::empty()
    } else {
        profiles_found(home, names.drop_last(), present) + dir_found(
            home,
            CacheDirView::Profile(names.last()),
            present,
        )
    }
}

/// The events of the directory with the profiles of a home.
pub open spec fn firefox_events(
    h: HomeView,
    present: spec_fn(Seq<char>) -> bool,
) -> Seq<BrowserEventView> {
    match h.profiles {
        Some(names) => seq![BrowserEventView::Opened] + profile_events(h.path, names, present)
            + seq![BrowserEventView::EndOfDir],
        None => seq![BrowserEventView::Unreadable],
    }
}

/// The caches that there are in the profiles of a home, as far as they can be read.
pub open spec fn firefox_found(h: HomeView, present: spec_fn(Seq<char>) -> bool) -> Seq<Seq<char>> {
    match h.profiles {
        Some(names) => profiles_found(h.path, names, present),
        None => Seq::empty(),
    }
}

/// The events of one home.
pub open spec fn home_events(
    h: HomeView,
    present: spec_fn(Seq<char>) -> bool,
) -> Seq<BrowserEventView> {
    seq![BrowserEventView::Home(h.path)] + check_events(
        h.path,
        CacheDirView::FirefoxCache,
        present,
    ) + firefox_events(h, present) + check_events(h.path, CacheDirView::Chromium, present)
        + check_events(h.path, CacheDirView::Chrome, present)
}

/// The caches that there are in one home, in order.
pub open spec fn home_found(h: HomeView, present: spec_fn(Seq<char>) -> bool) -> Seq<Seq<char>> {
    dir_found(h.path, CacheDirView::FirefoxCache, present) + firefox_found(h, present) + dir_found(
        h.path,
        CacheDirView::Chromium,
        present,
    ) + dir_found(h.path, CacheDirView::Chrome, present)
}

/// The events of all homes.
pub open spec fn homes_events(
    homes: Seq<HomeView>,
    present: spec_fn(Seq<char>) -> bool,
) -> Seq<BrowserEventView>
    decreases homes.len(),
{
    if homes.len() == 0 {
        Seq::empty()
    } else {
        homes_events(homes.drop_last(), present) + home_events(homes.last(), present)
    }
}

/// The caches that there are in all homes, in order.
pub open spec fn browser_found(
    homes: Seq<HomeView>,
    present: spec_fn(Seq<char>) -> bool,
) -> Seq<Seq<char>>
    decreases homes.len(),
{
    if homes.len() == 0 {
        Seq::empty()
    } else {
        browser_found(homes.drop_last(), present) + home_found(homes.last(), present)
    }
}

/// The paths among `found` in which removing is allowed.
pub open spec fn removable(found: Seq<Seq<char>>) -> Seq<Seq<char>> {
    found.filter(|path: Seq<char>| safe_path(path))
}

/// The log with every path among `found` that must not be removed.
pub open spec fn refusals_told(t: TermView, found: Seq<Seq<char>>) -> TermView
    decreases found.len(),
{
    if found.len() == 0 {
        t
    } else {
        refusal_told(refusals_told(t, found.drop_last()), found.last())
    }
}

pub(crate) proof fn lemma_refusals_in_parts(t: TermView, a: Seq<Seq<char>>, b: Seq<Seq<char>>)
    ensures
        refusals_told(t, a + b) == refusals_told(refusals_told(t, a), b),
        removable(a + b) == removable(a) + removable(b),
    decreases b.len(),
{
    Seq::filter_distributes_over_add(a, b, |path: Seq<char>| safe_path(path));
    if b.len() == 0 {
        assert(a + b == a);
    } else {
        lemma_refusals_in_parts(t, a, b.drop_last());
        assert((a + b).drop_last() == a + b.drop_last());
    }
}

pub(crate) proof fn lemma_one_refusal(t: TermView, path: Seq<char>)
    ensures
        refusals_told(t, seq![path]) == refusal_told(t, path),
        removable(seq![path]) == if safe_path(path) {
            seq![path]
        } else {
            Seq::empty()
        },
{
    let none = Seq::<Seq<char>>::empty();
    reveal(Seq::filter);
    assert(none.push(path) == seq![path]);
    none.lemma_filter_push(path, |path: Seq<char>| safe_path(path));
    assert(none.filter(|path: Seq<char>| safe_path(path)) == none);
    assert(none.push(path).drop_last() == none);
    assert(none.push(path) == seq![path]);
    assert(seq![path].drop_last() == none);
    assert(refusals_told(t, none) == t);
}

proof fn lemma_browser_in_parts(
    s: BrowserView,
    first: Seq<BrowserEventView>,
    second: Seq<BrowserEventView>,
    t: TermView,
)
    ensures
        ({
            let (mid, removed, logged) = browser_run(s, first, t);
            let (end, more, told) = browser_run(mid, second, logged);
            browser_run(s, first + second, t) == (end, removed + more, told)
        }),
    decreases first.len(),
{
    let (mid, removed, logged) = browser_run(s, first, t);
    let (end, more, told) = browser_run(mid, second, logged);
    if first.len() == 0 {
        assert(first + second == second);
        assert(removed + more == more);
    } else {
        let (next, after) = browser_next(s, first.first(), t);
        lemma_browser_in_parts(next, first.drop_first(), second, after);
        assert((first + second).first() == first.first());
        assert((first + second).drop_first() == first.drop_first() + second);
        if let (BrowserView::Check { .. }, BrowserView::Remove { home, dir }) = (s, next) {
            let later = browser_run(next, first.drop_first(), after).1;
            let path = seq![path_below(home, dir.rel())];
            assert(path + (later + more) == (path + later) + more);
        }
    }
}

/// The events lead from `s` to `end`, and what is found on the way is removed or refused.
spec fn sweeps(
    s: BrowserView,
    events: Seq<BrowserEventView>,
    t: TermView,
    end: BrowserView,
    found: Seq<Seq<char>>,
) -> bool {
    browser_run(s, events, t) == (end, removable(found), refusals_told(t, found))
}

proof fn lemma_sweeps_in_parts(
    s: BrowserView,
    a: Seq<BrowserEventView>,
    b: Seq<BrowserEventView>,
    t: TermView,
    mid: BrowserView,
    found: Seq<Seq<char>>,
    end: BrowserView,
    more: Seq<Seq<char>>,
)
    requires
        sweeps(s, a, t, mid, found),
        sweeps(mid, b, refusals_told(t, found), end, more),
    ensures
        sweeps(s, a + b, t, end, found + more),
{
    lemma_browser_in_parts(s, a, b, t);
    lemma_refusals_in_parts(t, found, more);
}

/// An event that neither finds nor removes anything.
proof fn lemma_sweeps_one(s: BrowserView, event: BrowserEventView, t: TermView)
    requires
        browser_next(s, event, t).1 == t,
        !(browser_next(s, event, t).0 is Remove),
    ensures
        sweeps(s, seq![event], t, browser_next(s, event, t).0, Seq::empty()),
{
    reveal_with_fuel(browser_run, 2);
    reveal(Seq::filter);
    assert(seq![event].drop_first() == Seq::<BrowserEventView>::empty());
    assert(removable(Seq::empty()) == Seq::<Seq<char>>::empty());
}

proof fn lemma_sweeps_dir(
    home: Seq<char>,
    dir: CacheDirView,
    present: spec_fn(Seq<char>) -> bool,
    t: TermView,
)
    ensures
        sweeps(
            BrowserView::Check { home, dir },
            check_events(home, dir, present),
            t,
            browser_after(home, dir),
            dir_found(home, dir, present),
        ),
{
    let path = path_below(home, dir.rel());
    let none = Seq::<Seq<char>>::empty();
    let no_events = Seq::<BrowserEventView>::empty();
    let here = check_events(home, dir, present);
    lemma_one_refusal(t, path);
    reveal(Seq::filter);
    assert(removable(none) == none);
    reveal_with_fuel(browser_run, 3);
    if present(path) && safe_path(path) {
        assert(here.drop_first() == seq![BrowserEventView::Removed]);
        assert(here.drop_first().drop_first() == no_events);
        assert(seq![path] + none == seq![path]);
    } else {
        assert(here.drop_first() == no_events);
    }
}

proof fn lemma_sweeps_profiles(
    home: Seq<char>,
    names: Seq<Seq<char>>,
    present: spec_fn(Seq<char>) -> bool,
    t: TermView,
)
    ensures
        sweeps(
            BrowserView::ReadProfile { home },
            profile_events(home, names, present),
            t,
            BrowserView::ReadProfile { home },
            profiles_found(home, names, present),
        ),
    decreases names.len(),
{
    let s = BrowserView::ReadProfile { home };
    let none = Seq::<Seq<char>>::empty();
    if names.len() == 0 {
        reveal(Seq::filter);
        assert(removable(none) == none);
    } else {
        let dir = CacheDirView::Profile(names.last());
        let before = profiles_found(home, names.drop_last(), present);
        let logged = refusals_told(t, before);
        let read = seq![BrowserEventView::Profile(names.last())];
        let check = check_events(home, dir, present);
        let found = dir_found(home, dir, present);
        lemma_sweeps_profiles(home, names.drop_last(), present, t);
        lemma_sweeps_one(s, BrowserEventView::Profile(names.last()), logged);
        lemma_sweeps_dir(home, dir, present, logged);
        lemma_sweeps_in_parts(
            s,
            read,
            check,
            logged,
            BrowserView::Check { home, dir },
            none,
            s,
            found,
        );
        assert(none + found == found);
        lemma_sweeps_in_parts(
            s,
            profile_events(home, names.drop_last(), present),
            read + check,
            t,
            s,
            before,
            s,
            found,
        );
    }
}

proof fn lemma_sweeps_firefox(h: HomeView, present: spec_fn(Seq<char>) -> bool, t: TermView)
    ensures
        sweeps(
            BrowserView::OpenProfiles { home: h.path },
            firefox_events(h, present),
            t,
            BrowserView::Check { home: h.path, dir: CacheDirView::Chromium },
            firefox_found(h, present),
        ),
{
    let s = BrowserView::OpenProfiles { home: h.path };
    let inside = BrowserView::ReadProfile { home: h.path };
    let end = BrowserView::Check { home: h.path, dir: CacheDirView::Chromium };
    let none = Seq::<Seq<char>>::empty();
    match h.profiles {
        Some(names) => {
            let opened = seq![BrowserEventView::Opened];
            let closed = seq![BrowserEventView::EndOfDir];
            let events = profile_events(h.path, names, present);
            let found = profiles_found(h.path, names, present);
            lemma_sweeps_one(s, BrowserEventView::Opened, t);
            lemma_sweeps_profiles(h.path, names, present, t);
            lemma_sweeps_in_parts(s, opened, events, t, inside, none, inside, found);
            assert(none + found == found);
            lemma_sweeps_one(inside, BrowserEventView::EndOfDir, refusals_told(t, found));
            lemma_sweeps_in_parts(s, opened + events, closed, t, inside, found, end, none);
            assert(found + none == found);
        },
        None => lemma_sweeps_one(s, BrowserEventView::Unreadable, t),
    }
}

proof fn lemma_sweeps_home(h: HomeView, present: spec_fn(Seq<char>) -> bool, t: TermView)
    ensures
        sweeps(
            BrowserView::Read,
            home_events(h, present),
            t,
            BrowserView::Read,
            home_found(h, present),
        ),
{
    let s = BrowserView::Read;
    let none = Seq::<Seq<char>>::empty();
    let s1 = BrowserView::Check { home: h.path, dir: CacheDirView::FirefoxCache };
    let s2 = BrowserView::OpenProfiles { home: h.path };
    let s3 = BrowserView::Check { home: h.path, dir: CacheDirView::Chromium };
    let s4 = BrowserView::Check { home: h.path, dir: CacheDirView::Chrome };
    let e0 = seq![BrowserEventView::Home(h.path)];
    let e1 = check_events(h.path, CacheDirView::FirefoxCache, present);
    let e2 = firefox_events(h, present);
    let e3 = check_events(h.path, CacheDirView::Chromium, present);
    let e4 = check_events(h.path, CacheDirView::Chrome, present);
    let f1 = dir_found(h.path, CacheDirView::FirefoxCache, present);
    let f2 = firefox_found(h, present);
    let f3 = dir_found(h.path, CacheDirView::Chromium, present);
    let f4 = dir_found(h.path, CacheDirView::Chrome, present);
    lemma_sweeps_one(s, BrowserEventView::Home(h.path), t);
    lemma_sweeps_dir(h.path, CacheDirView::FirefoxCache, present, t);
    lemma_sweeps_in_parts(s, e0, e1, t, s1, none, s2, f1);
    assert(none + f1 == f1);
    lemma_sweeps_firefox(h, present, refusals_told(t, f1));
    lemma_sweeps_in_parts(s, e0 + e1, e2, t, s2, f1, s3, f2);
    lemma_sweeps_dir(h.path, CacheDirView::Chromium, present, refusals_told(t, f1 + f2));
    lemma_sweeps_in_parts(s, e0 + e1 + e2, e3, t, s3, f1 + f2, s4, f3);
    lemma_sweeps_dir(h.path, CacheDirView::Chrome, present, refusals_told(t, f1 + f2 + f3));
    lemma_sweeps_in_parts(s, e0 + e1 + e2 + e3, e4, t, s4, f1 + f2 + f3, s, f4);
}

proof fn lemma_sweeps_homes(
    homes: Seq<HomeView>,
    present: spec_fn(Seq<char>) -> bool,
    t: TermView,
)
    ensures
        sweeps(
            BrowserView::Read,
            homes_events(homes, present),
            t,
            BrowserView::Read,
            browser_found(homes, present),
        ),
    decreases homes.len(),
{
    let s = BrowserView::Read;
    if homes.len() == 0 {
        reveal(Seq::filter);
        assert(removable(Seq::empty()) == Seq::<Seq<char>>::empty());
    } else {
        let before = browser_found(homes.drop_last(), present);
        lemma_sweeps_homes(homes.drop_last(), present, t);
        lemma_sweeps_home(homes.last(), present, refusals_told(t, before));
        lemma_sweeps_in_parts(
            s,
            homes_events(homes.drop_last(), present),
            home_events(homes.last(), present),
            t,
            s,
            before,
            s,
            home_found(homes.last(), present),
        );
    }
}

/// Cleaning browser caches removes, home by home, the cache directories that there are and in which
/// removing is allowed: Firefox's, those in its profiles, Chromium's and Chrome's. The others are
/// named in the log.
pub proof fn browser_caches_are_removed(
    homes: Seq<HomeView>,
    present: spec_fn(Seq<char>) -> bool,
    t: TermView,
)
    ensures
        browser_run(
            BrowserView::OpenHomes,
            seq![BrowserEventView::Opened] + homes_events(homes, present) + seq![
                BrowserEventView::EndOfDir,
            ],
            t,
        ) == (
            BrowserView::Finished,
            removable(browser_found(homes, present)),
            refusals_told(t, browser_found(homes, present)),
        ),
{
    let s = BrowserView::OpenHomes;
    let read = BrowserView::Read;
    let opened = seq![BrowserEventView::Opened];
    let closed = seq![BrowserEventView::EndOfDir];
    let middle = homes_events(homes, present);
    let none = Seq::<Seq<char>>::empty();
    let found = browser_found(homes, present);
    lemma_sweeps_one(s, BrowserEventView::Opened, t);
    lemma_sweeps_homes(homes, present, t);
    lemma_sweeps_in_parts(s, opened, middle, t, read, none, read, found);
    assert(none + found == found);
    lemma_sweeps_one(read, BrowserEventView::EndOfDir, refusals_told(t, found));
    lemma_sweeps_in_parts(
        s,
        opened + middle,
        closed,
        t,
        read,
        found,
        BrowserView::Finished,
        none,
    );
    assert(found + none == found);
}

/// Removing is allowed in every cache directory of a browser in a home below `/home`.
pub proof fn browser_paths_are_safe(home: Seq<char>, dir: CacheDirView)
    requires
        "/home/"@.is_prefix_of(home),
    ensures
        safe_path(path_below(home, dir.rel())),
{
    let path = path_below(home, dir.rel());
    assert("/home/"@ == path.take("/home/"@.len() as int));
}

/// Whatever happens, the sweep over browser caches only ever sets out to remove a path in which
/// removing is allowed.
pub proof fn browser_sweep_removes_only_safe_paths(
    s: BrowserView,
    event: BrowserEventView,
    t: TermView,
)
    requires
        s matches BrowserView::Remove { home, dir } ==> safe_path(path_below(home, dir.rel())),
    ensures
        browser_next(s, event, t).0 matches BrowserView::Remove { home, dir } ==> safe_path(
            path_below(home, dir.rel()),
        ),
{
}

/// The path of the cache inside a Firefox profile.
pub open spec fn profile_cache(home: Seq<char>, profile: Seq<char>) -> Seq<char> {
    path_below(home, ".mozilla/firefox/"@ + profile + "/Cache2"@)
}

/// A path at which a browser keeps nothing but a cache for the user of this home.
pub open spec fn is_browser_cache(home: Seq<char>, path: Seq<char>) -> bool {
    ||| path == path_below(home, ".cache/mozilla/firefox"@)
    ||| path == path_below(home, ".cache/chromium"@)
    ||| path == path_below(home, ".cache/google-chrome"@)
    ||| exists|profile: Seq<char>| path == #[trigger] profile_cache(home, profile)
}

/// The sweep over browser caches only ever sets out to remove a cache: never a profile, and never
/// the directory in which Firefox keeps its profiles.
pub proof fn browser_sweep_removes_only_caches(
    s: BrowserView,
    event: BrowserEventView,
    t: TermView,
)
    ensures
        browser_next(s, event, t).0 matches BrowserView::Remove { home, dir } ==> is_browser_cache(
            home,
            path_below(home, dir.rel()),
        ),
{
    if let BrowserView::Remove { home, dir } = browser_next(s, event, t).0 {
        if let CacheDirView::Profile(name) = dir {
            assert(path_below(home, dir.rel()) == profile_cache(home, name));
        }
    }
}

/// Whatever happens, every path that is removed in the course of the sweep is a cache, and one in
/// which removing is allowed.
pub proof fn browser_run_removes_only_caches(
    s: BrowserView,
    events: Seq<BrowserEventView>,
    t: TermView,
    i: int,
)
    requires
        0 <= i < browser_run(s, events, t).1.len(),
    ensures
        safe_path(browser_run(s, events, t).1[i]),
        exists|home: Seq<char>| #[trigger]
            is_browser_cache(home, browser_run(s, events, t).1[i]),
    decreases events.len(),
{
    let (next, logged) = browser_next(s, events.first(), t);
    let more = browser_run(next, events.drop_first(), logged).1;
    match (s, next) {
        (BrowserView::Check { .. }, BrowserView::Remove { home, dir }) => {
            if i == 0 {
                browser_sweep_removes_only_caches(s, events.first(), t);
                assert(is_browser_cache(home, browser_run(s, events, t).1[i]));
            } else {
                assert(browser_run(s, events, t).1[i] == more[i - 1]);
                browser_run_removes_only_caches(next, events.drop_first(), logged, i - 1);
            }
        },
        _ => browser_run_removes_only_caches(next, events.drop_first(), logged, i),
    }
}

/// The sweep over browser caches never takes anything back from the log.
pub proof fn browser_sweep_only_adds(s: BrowserView, events: Seq<BrowserEventView>, t: TermView)
    ensures
        t.grew_to(browser_run(s, events, t).2),
    decreases events.len(),
{
    if events.len() > 0 {
        let (next, logged) = browser_next(s, events.first(), t);
        assert(t.grew_to(logged));
        browser_sweep_only_adds(next, events.drop_first(), logged);
        crate::terminal::growth_is_transitive(
            t,
            logged,
            browser_run(next, events.drop_first(), logged).2,
        );
    }
}

/// Whatever lies below one of five directories may be removed, however deep and under whatever name.
pub proof fn everything_below_known_directories_is_safe(rest: Seq<char>)
    ensures
        safe_path("/tmp/"@ + rest),
        safe_path("/var/tmp/"@ + rest),
        safe_path("/home/"@ + rest),
        safe_path("/root/"@ + rest),
        safe_path("/var/cache/"@ + rest),
{
    lemma_prefix("/tmp/"@, rest);
    lemma_prefix("/var/tmp/"@, rest);
    lemma_prefix("/home/"@, rest);
    lemma_prefix("/root/"@, rest);
    lemma_prefix("/var/cache/"@, rest);
}

proof fn lemma_prefix(a: Seq<char>, rest: Seq<char>)
    ensures
        a.is_prefix_of(a + rest),
{
    assert((a + rest).take(a.len() as int) == a);
}

/// Nothing else may be removed: a path that is allowed is one of those five directories followed by
/// something. A path that is not allowed is named in the log as a failure, and nothing else is said.
pub proof fn everything_else_is_refused(path: Seq<char>, t: TermView) -> (rest: Seq<char>)
    ensures
        safe_path(path) ==> path == "/tmp/"@ + rest || path == "/var/tmp/"@ + rest || path
            == "/home/"@ + rest || path == "/root/"@ + rest || path == "/var/cache/"@ + rest,
        safe_path(path) ==> refusal_told(t, path) == t,
        !safe_path(path) ==> refusal_told(t, path).entries == t.entries.push(
            crate::terminal::EntryView {
                text: "Skipped unsafe path: "@ + path,
                level: "error"@,
            },
        ) && refusal_told(t, path).frames == t.frames,
{
    let behind = |a: Seq<char>| path.skip(a.len() as int);
    assert forall|a: Seq<char>| #[trigger] a.is_prefix_of(path) implies path == a + behind(a) by {
        assert(path == path.take(a.len() as int) + path.skip(a.len() as int));
    }
    if "/tmp/"@.is_prefix_of(path) {
        behind("/tmp/"@)
    } else if "/var/tmp/"@.is_prefix_of(path) {
        behind("/var/tmp/"@)
    } else if "/home/"@.is_prefix_of(path) {
        behind("/home/"@)
    } else if "/root/"@.is_prefix_of(path) {
        behind("/root/"@)
    } else {
        behind("/var/cache/"@)
    }
}

/// Whatever its name, an entry of `/tmp` is removed at its own path, a directory with all that is in
/// it, and then the next entry is read.
pub proof fn every_name_is_removed(name: Seq<u8>)
    ensures
        tmp_next(TmpView::Read, TmpEventView::Entry { name, is_dir: true }) == (
        TmpView::RemoveTree { path: encode_utf8("/tmp/"@) + name }),
        tmp_next(TmpView::Read, TmpEventView::Entry { name, is_dir: false }) == (
        TmpView::RemoveFile { path: encode_utf8("/tmp/"@) + name }),
        tmp_next(TmpView::RemoveTree { path: name }, TmpEventView::Removed) == TmpView::Read,
        tmp_next(TmpView::RemoveFile { path: name }, TmpEventView::Removed) == TmpView::Read,
        tmp_next(TmpView::Open, TmpEventView::Opened) == TmpView::Read,
        tmp_next(TmpView::Open, TmpEventView::Unreadable) == TmpView::Finished,
        tmp_next(TmpView::Read, TmpEventView::EndOfDir) == TmpView::Finished,
{
}

/// A path below a directory is the directory, one slash, and the rest.
pub proof fn paths_are_joined_by_one_slash(base: Seq<char>, rel: Seq<char>)
    ensures
        base.len() > 0 && base.last() != '/' ==> path_below(base, rel) == base + "/"@ + rel,
        path_below(base + "/"@, rel) == base + "/"@ + rel,
        path_below(Seq::empty(), rel) == rel,
{
    reveal_strlit("/");
    assert((base + "/"@).last() == '/');
    assert(Seq::<char>::empty() + rel == rel);
}

proof fn lemma_found_in_homes(
    homes: Seq<HomeView>,
    present: spec_fn(Seq<char>) -> bool,
    h: int,
    path: Seq<char>,
)
    requires
        0 <= h < homes.len(),
        home_found(homes[h], present).contains(path),
    ensures
        browser_found(homes, present).contains(path),
    decreases homes.len(),
{
    let before = browser_found(homes.drop_last(), present);
    let here = home_found(homes.last(), present);
    if h == homes.len() - 1 {
        lemma_contains_behind(before, here, path);
    } else {
        lemma_found_in_homes(homes.drop_last(), present, h, path);
        lemma_contains_in_front(before, here, path);
    }
}

proof fn lemma_contains_behind(a: Seq<Seq<char>>, b: Seq<Seq<char>>, x: Seq<char>)
    requires
        b.contains(x),
    ensures
        (a + b).contains(x),
{
    let k = choose|k: int| 0 <= k < b.len() && b[k] == x;
    assert((a + b)[a.len() + k] == x);
}

proof fn lemma_contains_in_front(a: Seq<Seq<char>>, b: Seq<Seq<char>>, x: Seq<char>)
    requires
        a.contains(x),
    ensures
        (a + b).contains(x),
{
    let k = choose|k: int| 0 <= k < a.len() && a[k] == x;
    assert((a + b)[k] == x);
}

proof fn lemma_profile_found(
    home: Seq<char>,
    names: Seq<Seq<char>>,
    present: spec_fn(Seq<char>) -> bool,
    n: int,
)
    requires
        0 <= n < names.len(),
        present(path_below(home, CacheDirView::Profile(names[n]).rel())),
    ensures
        profiles_found(home, names, present).contains(
            path_below(home, CacheDirView::Profile(names[n]).rel()),
        ),
    decreases names.len(),
{
    let path = path_below(home, CacheDirView::Profile(names[n]).rel());
    let before = profiles_found(home, names.drop_last(), present);
    let here = dir_found(home, CacheDirView::Profile(names.last()), present);
    if n == names.len() - 1 {
        assert(here[0] == path);
        lemma_contains_behind(before, here, path);
    } else {
        lemma_profile_found(home, names.drop_last(), present, n);
        lemma_contains_in_front(before, here, path);
    }
}

/// In the home of every user below `/home`, each cache that there is gets removed: those of Firefox,
/// Chromium and Chrome in `.cache`, and the one in each Firefox profile, whatever its name.
pub proof fn every_browser_cache_is_removed(
    homes: Seq<HomeView>,
    present: spec_fn(Seq<char>) -> bool,
    t: TermView,
    h: int,
    user: Seq<char>,
)
    requires
        0 <= h < homes.len(),
        user.len() > 0 && user.last() != '/',
        homes[h].path == "/home/"@ + user,
    ensures
        ({
            let home = "/home/"@ + user;
            let removed = browser_run(
                BrowserView::OpenHomes,
                seq![BrowserEventView::Opened] + homes_events(homes, present) + seq![
                    BrowserEventView::EndOfDir,
                ],
                t,
            ).1;
            &&& present(home + "/"@ + ".cache/mozilla/firefox"@) ==> removed.contains(
                home + "/"@ + ".cache/mozilla/firefox"@,
            )
            &&& present(home + "/"@ + ".cache/chromium"@) ==> removed.contains(
                home + "/"@ + ".cache/chromium"@,
            )
            &&& present(home + "/"@ + ".cache/google-chrome"@) ==> removed.contains(
                home + "/"@ + ".cache/google-chrome"@,
            )
            &&& homes[h].profiles matches Some(names) ==> forall|n: int|
                0 <= n < names.len() && present(
                    home + "/"@ + (".mozilla/firefox/"@ + #[trigger] names[n] + "/Cache2"@),
                ) ==> removed.contains(
                    home + "/"@ + (".mozilla/firefox/"@ + names[n] + "/Cache2"@),
                )
        }),
{
    let home = "/home/"@ + user;
    let found = browser_found(homes, present);
    let safe = |path: Seq<char>| safe_path(path);
    browser_caches_are_removed(homes, present, t);
    assert(home.last() == user.last());
    lemma_prefix("/home/"@, user);
    let f1 = dir_found(home, CacheDirView::FirefoxCache, present);
    let f2 = firefox_found(homes[h], present);
    let f3 = dir_found(home, CacheDirView::Chromium, present);
    let f4 = dir_found(home, CacheDirView::Chrome, present);
    assert forall|dir: CacheDirView|
        home_found(homes[h], present).contains(path_below(home, #[trigger] dir.rel())) implies removable(
        found,
    ).contains(path_below(home, dir.rel())) by {
        browser_paths_are_safe(home, dir);
        lemma_found_in_homes(homes, present, h, path_below(home, dir.rel()));
        let path = path_below(home, dir.rel());
        let k = choose|k: int| 0 <= k < found.len() && found[k] == path;
        assert(safe(found[k]));
        found.lemma_filter_contains(safe, k);
    }
    if present(home + "/"@ + ".cache/mozilla/firefox"@) {
        let path = path_below(home, CacheDirView::FirefoxCache.rel());
        assert(f1[0] == path);
        lemma_contains_in_front(f1, f2, path);
        lemma_contains_in_front(f1 + f2, f3, path);
        lemma_contains_in_front(f1 + f2 + f3, f4, path);
    }
    if present(home + "/"@ + ".cache/chromium"@) {
        let path = path_below(home, CacheDirView::Chromium.rel());
        assert(f3[0] == path);
        lemma_contains_behind(f1 + f2, f3, path);
        lemma_contains_in_front(f1 + f2 + f3, f4, path);
    }
    if present(home + "/"@ + ".cache/google-chrome"@) {
        let path = path_below(home, CacheDirView::Chrome.rel());
        assert(f4[0] == path);
        lemma_contains_behind(f1 + f2 + f3, f4, path);
    }
    if let Some(names) = homes[h].profiles {
        assert forall|n: int|
            0 <= n < names.len() && present(
                home + "/"@ + (".mozilla/firefox/"@ + #[trigger] names[n] + "/Cache2"@),
            ) implies removable(found).contains(
            home + "/"@ + (".mozilla/firefox/"@ + names[n] + "/Cache2"@),
        ) by {
            let path = path_below(home, CacheDirView::Profile(names[n]).rel());
            assert(path == home + "/"@ + (".mozilla/firefox/"@ + names[n] + "/Cache2"@));
            lemma_profile_found(home, names, present, n);
            lemma_contains_behind(f1, f2, path);
            lemma_contains_in_front(f1 + f2, f3, path);
            lemma_contains_in_front(f1 + f2 + f3, f4, path);
        }
    }
}

/// What happens in the sweeps, and what they ask for, is seen as it is.
pub proof fn sweeps_are_seen_as_they_are(
    path: Vec<u8>,
    s: String,
    home: String,
    dir: CacheDir,
    b: bool,
)
    ensures
        (TmpEvent::Entry { name: path, is_dir: b })@ == (TmpEventView::Entry {
            name: path@,
            is_dir: b,
        }),
        (TmpSweep::RemoveTree { path })@ == (TmpView::RemoveTree { path: path@ }),
        (TmpSweep::RemoveFile { path })@ == (TmpView::RemoveFile { path: path@ }),
        BrowserEvent::Home(s)@ == BrowserEventView::Home(s@),
        BrowserEvent::Profile(s)@ == BrowserEventView::Profile(s@),
        BrowserEvent::Exists(b)@ == BrowserEventView::Exists(b),
        CacheDir::Profile(s)@ == CacheDirView::Profile(s@),
        CacheDir::FirefoxCache@ == CacheDirView::FirefoxCache,
        CacheDir::Chromium@ == CacheDirView::Chromium,
        CacheDir::Chrome@ == CacheDirView::Chrome,
        (BrowserSweep::Check { home, dir })@ == (BrowserView::Check { home: home@, dir: dir@ }),
        (BrowserSweep::Remove { home, dir })@ == (BrowserView::Remove { home: home@, dir: dir@ }),
        (BrowserSweep::OpenProfiles { home })@ == (BrowserView::OpenProfiles { home: home@ }),
        (BrowserSweep::ReadProfile { home })@ == (BrowserView::ReadProfile { home: home@ }),
{
}

/// A cache directory of a user below `/home` is removed exactly if there is one; one elsewhere that
/// must not be removed is named in the log. Either way the sweep goes on.
pub proof fn caches_are_removed_exactly_if_present(
    user: Seq<char>,
    home: Seq<char>,
    dir: CacheDirView,
    t: TermView,
)
    ensures
        browser_next(
            BrowserView::Check { home: "/home/"@ + user, dir },
            BrowserEventView::Exists(true),
            t,
        ) == (BrowserView::Remove { home: "/home/"@ + user, dir }, t),
        ({
            let (next, logged) = browser_next(
                BrowserView::Check { home, dir },
                BrowserEventView::Exists(false),
                t,
            );
            logged == t && !(next is Remove) && !(next is Finished)
        }),
        !safe_path(path_below(home, dir.rel())) ==> {
            let (next, logged) = browser_next(
                BrowserView::Check { home, dir },
                BrowserEventView::Exists(true),
                t,
            );
            logged == t.err("Skipped unsafe path: "@ + path_below(home, dir.rel())) && !(
            next is Remove) && !(next is Finished)
        },
        CacheDirView::FirefoxCache.rel() == ".cache/mozilla/firefox"@,
        CacheDirView::Profile(user).rel() == ".mozilla/firefox/"@ + user + "/Cache2"@,
        CacheDirView::Chromium.rel() == ".cache/chromium"@,
        CacheDirView::Chrome.rel() == ".cache/google-chrome"@,
{
    lemma_prefix("/home/"@, user);
    browser_paths_are_safe("/home/"@ + user, dir);
}

} // verus!
