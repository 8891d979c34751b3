//! The recursive copy and delete, as decisions: each job asks its caller for one
//! piece of outside work at a time and is told how it went. The caller performs
//! the work and polls for cancellation; the job decides what comes next, what is
//! reported, and how the job ends.

pub mod copy;
pub mod make;
pub mod remove;

pub use self::copy::{CopyJob, CopyJobView, CopyStage, CHUNK};
pub use self::make::{MakeJob, MakeJobView, MakeStage};
pub use self::remove::{RemoveJob, RemoveJobView, RemoveStage};

use vstd::prelude::*;
use vstd::string::*;

verus! {

/// What a path turned out to be.
#[derive(Clone, Copy, Debug, PartialEq, Eq, Structural)]
pub enum Kind {
    Missing,
    File,
    Directory,
}

/// One entry of a directory walk, as the caller found it.
pub enum Walked {
    /// An entry, with its path and whether that path is a directory.
    Item { path: String, is_dir: bool },
    /// The walk failed at this point.
    Broken { reason: String },
}

/// An entry of a walk as contracts see it.
pub enum WalkedView {
    Item { path: Seq<char>, is_dir: bool },
    Broken { reason: Seq<char> },
}

impl DeepView for Walked {
    type V = WalkedView;

    open spec fn deep_view(&self) -> WalkedView {
        match self {
            Walked::Item { path, is_dir } => WalkedView::Item { path: path@, is_dir: *is_dir },
            Walked::Broken { reason } => WalkedView::Broken { reason: reason@ },
        }
    }
}

/// The outside work a job asks for.
pub enum Request {
    /// Say what `path` is.
    Inspect { path: String },
    /// Walk the tree at `path` and count its entries.
    Count { path: String },
    /// Walk the tree at `path` and list its entries: a directory after its
    /// contents where `contents_first`, before them otherwise.
    Walk { path: String, contents_first: bool },
    /// Create the one directory `path`.
    CreateDir { path: String },
    /// Create the directory `path` and every directory above it that is missing.
    CreateTree { path: String },
    /// Copy the file `from` to `to` in one go.
    CopyFile { from: String, to: String },
    /// Remove the empty directory `path`.
    RemoveDir { path: String },
    /// Remove the file `path`.
    RemoveFile { path: String },
    /// Open `path` for reading and say how long it is.
    OpenSource { path: String },
    /// Create `path` for writing.
    CreateTarget { path: String },
    /// Read up to `limit` bytes from the source and write them to the target.
    CopyChunk { limit: usize },
    /// The job is over, with `error` where it failed.
    Finish { error: Option<String> },
}

/// A request as contracts see it.
pub enum RequestView {
    Inspect { path: Seq<char> },
    Count { path: Seq<char> },
    Walk { path: Seq<char>, contents_first: bool },
    CreateDir { path: Seq<char> },
    CreateTree { path: Seq<char> },
    CopyFile { from: Seq<char>, to: Seq<char> },
    RemoveDir { path: Seq<char> },
    RemoveFile { path: Seq<char> },
    OpenSource { path: Seq<char> },
    CreateTarget { path: Seq<char> },
    CopyChunk { limit: usize },
    Finish { error: Option<Seq<char>> },
}

impl DeepView for Request {
    type V = RequestView;

    open spec fn deep_view(&self) -> RequestView {
        match self {
            Request::Inspect { path } => RequestView::Inspect { path: path@ },
            Request::Count { path } => RequestView::Count { path: path@ },
            Request::Walk { path, contents_first } => RequestView::Walk {
                path: path@,
                contents_first: *contents_first,
            },
            Request::CreateDir { path } => RequestView::CreateDir { path: path@ },
            Request::CreateTree { path } => RequestView::CreateTree { path: path@ },
            Request::CopyFile { from, to } => RequestView::CopyFile { from: from@, to: to@ },
            Request::RemoveDir { path } => RequestView::RemoveDir { path: path@ },
            Request::RemoveFile { path } => RequestView::RemoveFile { path: path@ },
            Request::OpenSource { path } => RequestView::OpenSource { path: path@ },
            Request::CreateTarget { path } => RequestView::CreateTarget { path: path@ },
            Request::CopyChunk { limit } => RequestView::CopyChunk { limit: *limit },
            Request::Finish { error } => RequestView::Finish { error: error.deep_view() },
        }
    }
}

/// How the work that was asked for went. `cancel` says whether an abort was
/// requested by the time the work was done.
pub enum Answer {
    Found { kind: Kind },
    Counted { total: u64 },
    Listed { entries: Vec<Walked> },
    Opened { len: u64 },
    Done { cancel: bool },
    Copied { bytes: u64, cancel: bool },
    Failed { reason: String },
}

/// An answer as contracts see it.
pub enum AnswerView {
    Found { kind: Kind },
    Counted { total: u64 },
    Listed { entries: Seq<WalkedView> },
    Opened { len: u64 },
    Done { cancel: bool },
    Copied { bytes: u64, cancel: bool },
    Failed { reason: Seq<char> },
}

impl DeepView for Answer {
    type V = AnswerView;

    open spec fn deep_view(&self) -> AnswerView {
        match self {
            Answer::Found { kind } => AnswerView::Found { kind: *kind },
            Answer::Counted { total } => AnswerView::Counted { total: *total },
            Answer::Listed { entries } => AnswerView::Listed { entries: entries.deep_view() },
            Answer::Opened { len } => AnswerView::Opened { len: *len },
            Answer::Done { cancel } => AnswerView::Done { cancel: *cancel },
            Answer::Copied { bytes, cancel } => AnswerView::Copied {
                bytes: *bytes,
                cancel: *cancel,
            },
            Answer::Failed { reason } => AnswerView::Failed { reason: reason@ },
        }
    }
}

/// What a job has to tell the user.
pub enum Notice {
    /// A line of output.
    Say { line: String },
    /// Progress begins, with `total` units ahead.
    Start { total: u64 },
    /// `by` more units are done.
    Advance { by: u64 },
    /// Progress ends with `message`.
    Stop { message: String },
}

/// A notice as contracts see it.
pub enum NoticeView {
    Say { line: Seq<char> },
    Start { total: u64 },
    Advance { by: u64 },
    Stop { message: Seq<char> },
}

impl DeepView for Notice {
    type V = NoticeView;

    open spec fn deep_view(&self) -> NoticeView {
        match self {
            Notice::Say { line } => NoticeView::Say { line: line@ },
            Notice::Start { total } => NoticeView::Start { total: *total },
            Notice::Advance { by } => NoticeView::Advance { by: *by },
            Notice::Stop { message } => NoticeView::Stop { message: message@ },
        }
    }
}

/// One move of a job: what to tell the user, then what to do.
pub struct Step {
    pub notices: Vec<Notice>,
    pub request: Request,
}

/// A move of a job as contracts see it.
pub struct StepView {
    pub notices: Seq<NoticeView>,
    pub request: RequestView,
}

impl DeepView for Step {
    type V = StepView;

    open spec fn deep_view(&self) -> StepView {
        StepView { notices: self.notices.deep_view(), request: self.request.deep_view() }
    }
}

/// Adds a notice to those that are told.
pub(crate) fn note(notices: &mut Vec<Notice>, notice: Notice)
    ensures
        final(notices).deep_view() == old(notices).deep_view().push(notice.deep_view()),
{
    notices.push(notice);
    assert(notices.deep_view() =~= old(notices).deep_view().push(notice.deep_view()));
}

/// Nothing to tell.
pub(crate) fn silence() -> (notices: Vec<Notice>)
    ensures
        notices.deep_view() == Seq::<NoticeView>::empty(),
{
    let notices: Vec<Notice> = Vec::new();
    assert(notices.deep_view() =~= Seq::<NoticeView>::empty());
    notices
}

/// One notice to tell.
pub(crate) fn one(notice: Notice) -> (notices: Vec<Notice>)
    ensures
        notices.deep_view() == seq![notice.deep_view()],
{
    let mut notices: Vec<Notice> = Vec::new();
    notices.push(notice);
    assert(notices.deep_view() =~= seq![notice.deep_view()]);
    notices
}

/// Two notices to tell, in their order.
pub(crate) fn two(first: Notice, second: Notice) -> (notices: Vec<Notice>)
    ensures
        notices.deep_view() == seq![first.deep_view(), second.deep_view()],
{
    let mut notices: Vec<Notice> = Vec::new();
    notices.push(first);
    notices.push(second);
    assert(notices.deep_view() =~= seq![first.deep_view(), second.deep_view()]);
    notices
}

/// The error that ends a job when an answer does not fit what was asked: the
/// reason of a failure, and a fixed text for any other answer.
pub open spec fn misfit(answer: AnswerView) -> Seq<char> {
    match answer {
        AnswerView::Failed { reason } => reason,
        _ => "unexpected answer"@,
    }
}

/// Writes the error for an answer that does not fit.
pub(crate) fn misfit_text(answer: Answer) -> (out: String)
    ensures
        out@ == misfit(answer.deep_view()),
{
    match answer {
        Answer::Failed { reason } => reason,
        _ => "unexpected answer".to_owned(),
    }
}

/// `count` times the answer that the work was done and no abort was seen.
pub open spec fn all_done(count: int) -> Seq<AnswerView> {
    Seq::new(count as nat, |i: int| AnswerView::Done { cancel: false })
}

} // verus!
