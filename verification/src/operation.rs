//! What an operation asks of the system, and what the system answers.
use crate::command::{Captured, CapturedView, Invocation, InvocationView};
use crate::terminal::TermView;
use vstd::prelude::*;

verus! {

/// Work that an operation needs done.
pub enum Request {
    /// Run a command to its end and keep what it prints.
    Capture(Invocation),
    /// Run a command and stream its output into the log.
    Stream { command: Invocation, percent: u8 },
    /// Find out whether a binary is installed.
    Which(String),
    /// Look up who started the program, in the variable `SUDO_USER`.
    LaunchingUser,
    /// Empty the directory for temporary files.
    ClearTmp,
    /// Remove the browsers' caches.
    BrowserCaches,
    /// Remove Python's bytecode caches.
    Pycache,
    /// Remove the thumbnail caches.
    Thumbnails,
}

/// Work that an operation needs done, as a mathematical value.
pub enum RequestView {
    Capture(InvocationView),
    Stream { command: InvocationView, percent: u8 },
    Which(Seq<char>),
    LaunchingUser,
    ClearTmp,
    BrowserCaches,
    Pycache,
    Thumbnails,
}

impl View for Request {
    type V = RequestView;

    open spec fn view(&self) -> RequestView {
        match *self {
            Request::Capture(command) => RequestView::Capture(command@),
            Request::Stream { command, percent } => RequestView::Stream {
                command: command@,
                percent,
            },
            Request::Which(bin) => RequestView::Which(bin@),
            Request::LaunchingUser => RequestView::LaunchingUser,
            Request::ClearTmp => RequestView::ClearTmp,
            Request::BrowserCaches => RequestView::BrowserCaches,
            Request::Pycache => RequestView::Pycache,
            Request::Thumbnails => RequestView::Thumbnails,
        }
    }
}

/// The log after the work of a request is done, where `work` tells what the commands and sweeps
/// themselves log. A command whose output is kept, a lookup and the emptying of the directory for
/// temporary files log nothing.
pub open spec fn worked(
    work: spec_fn(RequestView, TermView) -> TermView,
    request: RequestView,
    t: TermView,
) -> TermView {
    match request {
        RequestView::Stream { .. }
        | RequestView::BrowserCaches
        | RequestView::Pycache
        | RequestView::Thumbnails => work(request, t),
        _ => t,
    }
}

/// The answer to a request.
pub enum Reply {
    /// What a captured command left behind; `None` if it could not be run.
    Output(Option<Captured>),
    /// How a streamed command ended.
    Ended(Result<(), String>),
    /// Whether a binary is installed.
    Found(bool),
    /// The value of `SUDO_USER`, if it is set.
    User(Option<String>),
    /// The work is done.
    Done,
}

/// The answer to a request, as a mathematical value.
pub enum ReplyView {
    Output(Option<CapturedView>),
    Ended(Option<Seq<char>>),
    Found(bool),
    User(Option<Seq<char>>),
    Done,
}

impl View for Reply {
    type V = ReplyView;

    open spec fn view(&self) -> ReplyView {
        match *self {
            Reply::Output(out) => ReplyView::Output(crate::command::capture(out)),
            Reply::Ended(r) => ReplyView::Ended(crate::command::failure(r)),
            Reply::Found(b) => ReplyView::Found(b),
            Reply::User(u) => ReplyView::User(crate::text::text_in(u)),
            Reply::Done => ReplyView::Done,
        }
    }
}

/// Streamed commands and sweeps log what they themselves log; every other request logs nothing.
pub proof fn only_streams_and_sweeps_log(
    work: spec_fn(RequestView, TermView) -> TermView,
    command: InvocationView,
    percent: u8,
    bin: Seq<char>,
    t: TermView,
)
    ensures
        ({
            let stream = RequestView::Stream { command, percent };
            &&& worked(work, stream, t) == work(stream, t)
            &&& worked(work, RequestView::BrowserCaches, t) == work(RequestView::BrowserCaches, t)
            &&& worked(work, RequestView::Pycache, t) == work(RequestView::Pycache, t)
            &&& worked(work, RequestView::Thumbnails, t) == work(RequestView::Thumbnails, t)
            &&& worked(work, RequestView::Capture(command), t) == t
            &&& worked(work, RequestView::Which(bin), t) == t
            &&& worked(work, RequestView::LaunchingUser, t) == t
            &&& worked(work, RequestView::ClearTmp, t) == t
        }),
{
}

/// Requests and replies are seen as they are, all of them.
pub proof fn requests_and_replies_are_seen_as_they_are(
    command: Invocation,
    percent: u8,
    s: String,
    c: Captured,
    found: bool,
)
    ensures
        Request::Capture(command)@ == RequestView::Capture(command@),
        (Request::Stream { command, percent })@ == (RequestView::Stream {
            command: command@,
            percent,
        }),
        Request::Which(s)@ == RequestView::Which(s@),
        Request::LaunchingUser@ == RequestView::LaunchingUser,
        Request::ClearTmp@ == RequestView::ClearTmp,
        Request::BrowserCaches@ == RequestView::BrowserCaches,
        Request::Pycache@ == RequestView::Pycache,
        Request::Thumbnails@ == RequestView::Thumbnails,
        Reply::Output(Some(c))@ == ReplyView::Output(
            Some(CapturedView { success: c.success, stdout: c.stdout@ }),
        ),
        Reply::Output(None)@ == ReplyView::Output(None),
        Reply::Ended(Err(s))@ == ReplyView::Ended(Some(s@)),
        Reply::Ended(Ok(()))@ == ReplyView::Ended(None),
        Reply::Found(found)@ == ReplyView::Found(found),
        Reply::User(Some(s))@ == ReplyView::User(Some(s@)),
        Reply::User(None)@ == ReplyView::User(None),
        Reply::Done@ == ReplyView::Done,
{
}

} // verus!
