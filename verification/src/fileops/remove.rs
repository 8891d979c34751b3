//! The recursive delete: every path in its turn, a tree contents first.

use vstd::prelude::*;
use vstd::string::*;

use crate::fileops::{
    all_done, misfit, misfit_text, note, one, silence, two, Answer, AnswerView, Kind, Notice,
    NoticeView, Request, RequestView, Step, StepView, Walked, WalkedView,
};

verus! {

/// Where a delete job stands.
#[derive(Clone, Copy, Debug, PartialEq, Eq, Structural)]
pub enum RemoveStage {
    /// Asked what the path at work is.
    Inspecting,
    /// Asked for the number of entries under the path at work.
    Counting,
    /// Asked for the entries under the path at work, contents first.
    Listing,
    /// Asked to remove the entry at `next`.
    Deleting,
    /// Asked to remove the path at work, a file.
    DeletingFile,
    /// Over.
    Finished,
}

/// A recursive delete under way.
pub struct RemoveJob {
    args: Vec<String>,
    target: usize,
    stage: RemoveStage,
    entries: Vec<Walked>,
    next: usize,
    total: u64,
    aborted: bool,
}

/// A delete job as contracts see it.
pub struct RemoveJobView {
    /// The arguments of the command, its own name first.
    pub args: Seq<Seq<char>>,
    /// The position in `args` of the path at work.
    pub target: int,
    pub stage: RemoveStage,
    /// The entries under the path at work, each directory after its contents.
    pub entries: Seq<WalkedView>,
    /// How many entries are done; while deleting, the entry at work.
    pub next: int,
    /// The size of the tree as it was counted before the work began.
    pub total: u64,
    /// Whether an abort was seen.
    pub aborted: bool,
}

impl RemoveJobView {
    /// A job that is not over works on one of its arguments, and while it
    /// deletes an entry there is such an entry.
    pub open spec fn wf(self) -> bool {
        &&& 0 <= self.target <= self.args.len()
        &&& self.stage != RemoveStage::Finished ==> 1 <= self.target < self.args.len()
        &&& 0 <= self.next <= self.entries.len()
        &&& self.stage == RemoveStage::Deleting ==> self.next < self.entries.len()
    }
}

impl View for RemoveJob {
    type V = RemoveJobView;

    closed spec fn view(&self) -> RemoveJobView {
        RemoveJobView {
            args: self.args.deep_view(),
            target: self.target as int,
            stage: self.stage,
            entries: self.entries.deep_view(),
            next: self.next as int,
            total: self.total,
            aborted: self.aborted,
        }
    }
}

/// The job ends: `notices` are told and `error` is its result.
pub open spec fn remove_stop(
    job: RemoveJobView,
    notices: Seq<NoticeView>,
    error: Option<Seq<char>>,
) -> (RemoveJobView, StepView) {
    (
        RemoveJobView { stage: RemoveStage::Finished, ..job },
        StepView { notices, request: RequestView::Finish { error } },
    )
}

/// The job turns to its next argument after telling `notices`, and is over
/// where there is none.
pub open spec fn remove_next(job: RemoveJobView, notices: Seq<NoticeView>) -> (
    RemoveJobView,
    StepView,
) {
    let at = job.target + 1;
    if at >= job.args.len() {
        remove_stop(RemoveJobView { target: at, ..job }, notices, None)
    } else {
        (
            RemoveJobView { target: at, stage: RemoveStage::Inspecting, ..job },
            StepView { notices, request: RequestView::Inspect { path: job.args[at] } },
        )
    }
}

/// The job takes up the entry at `at`, after telling `notices`. Past the last
/// entry the tree is gone and the next argument has its turn.
pub open spec fn remove_take(job: RemoveJobView, at: int, notices: Seq<NoticeView>) -> (
    RemoveJobView,
    StepView,
) {
    let job = RemoveJobView { next: at, ..job };
    if at >= job.entries.len() {
        remove_next(
            job,
            notices.push(NoticeView::Stop { message: "Deleted "@ + job.args[job.target] }),
        )
    } else {
        match job.entries[at] {
            WalkedView::Broken { reason } => remove_stop(job, notices, Some(reason)),
            WalkedView::Item { path, is_dir } => (
                RemoveJobView { stage: RemoveStage::Deleting, ..job },
                StepView {
                    notices,
                    request: if is_dir {
                        RequestView::RemoveDir { path }
                    } else {
                        RequestView::RemoveFile { path }
                    },
                },
            ),
        }
    }
}

/// How a delete begins: with a path to delete it asks what the first one is;
/// without one it prints its usage and is over, without error.
pub open spec fn remove_start(args: Seq<Seq<char>>) -> (RemoveJobView, StepView) {
    let idle = RemoveJobView {
        args,
        target: 0,
        stage: RemoveStage::Finished,
        entries: Seq::empty(),
        next: 0,
        total: 0,
        aborted: false,
    };
    if args.len() <= 1 {
        remove_stop(idle, seq![NoticeView::Say { line: "Syntax: rm {directory/file}"@ }], None)
    } else {
        (
            RemoveJobView { target: 1, stage: RemoveStage::Inspecting, ..idle },
            StepView { notices: Seq::empty(), request: RequestView::Inspect { path: args[1] } },
        )
    }
}

/// The move of a delete job on an answer.
///
/// The paths are taken in the order given. A missing path is reported and ends
/// the whole job, without error. A file is removed. A directory is counted,
/// walked contents first and removed entry by entry; an abort seen after an
/// entry stops the job there, and no further removal is asked for. Any failure
/// ends the job with its reason. A finished job stays finished.
pub open spec fn remove_step(job: RemoveJobView, answer: AnswerView) -> (RemoveJobView, StepView) {
    match (job.stage, answer) {
        (RemoveStage::Finished, _) => remove_stop(job, Seq::empty(), None),
        (RemoveStage::Inspecting, AnswerView::Found { kind: Kind::Missing }) => remove_stop(
            job,
            seq![NoticeView::Say { line: "Path does not exist"@ }],
            None,
        ),
        (RemoveStage::Inspecting, AnswerView::Found { kind: Kind::Directory }) => (
            RemoveJobView { stage: RemoveStage::Counting, ..job },
            StepView {
                notices: Seq::empty(),
                request: RequestView::Count { path: job.args[job.target] },
            },
        ),
        (RemoveStage::Inspecting, AnswerView::Found { kind: Kind::File }) => (
            RemoveJobView { stage: RemoveStage::DeletingFile, ..job },
            StepView {
                notices: Seq::empty(),
                request: RequestView::RemoveFile { path: job.args[job.target] },
            },
        ),
        (RemoveStage::Counting, AnswerView::Counted { total }) => (
            RemoveJobView { stage: RemoveStage::Listing, total, ..job },
            StepView {
                notices: seq![NoticeView::Start { total }],
                request: RequestView::Walk { path: job.args[job.target], contents_first: true },
            },
        ),
        (RemoveStage::Listing, AnswerView::Listed { entries }) => remove_take(
            RemoveJobView { entries, ..job },
            0,
            Seq::empty(),
        ),
        (RemoveStage::Deleting, AnswerView::Done { cancel }) => if cancel {
            remove_stop(
                RemoveJobView { next: job.next + 1, aborted: true, ..job },
                seq![
                    NoticeView::Advance { by: 1 },
                    NoticeView::Stop {
                        message: "Deletion stopped (cannot recover already deleted files)"@,
                    },
                ],
                None,
            )
        } else {
            remove_take(job, job.next + 1, seq![NoticeView::Advance { by: 1 }])
        },
        (RemoveStage::DeletingFile, AnswerView::Done { cancel }) => remove_next(
            job,
            seq![NoticeView::Say { line: "Deleted "@ + job.args[job.target] }],
        ),
        (_, other) => remove_stop(job, Seq::empty(), Some(misfit(other))),
    }
}

/// A move of a well-formed delete job leaves it well formed.
pub proof fn lemma_remove_step_wf(job: RemoveJobView, answer: AnswerView)
    requires
        job.wf(),
    ensures
        remove_step(job, answer).0.wf(),
{
}

impl RemoveJob {
    /// Begins a delete for the arguments of the command, the command's own name
    /// first.
    pub fn start(args: &Vec<String>) -> (out: (RemoveJob, Step))
        ensures
            (out.0@, out.1.deep_view()) == remove_start(args.deep_view()),
            out.0@.wf(),
    {
        let mut job = RemoveJob {
            args: args.clone(),
            target: 0,
            stage: RemoveStage::Finished,
            entries: Vec::new(),
            next: 0,
            total: 0,
            aborted: false,
        };
        assert(job.entries.deep_view() =~= Seq::<WalkedView>::empty());
        if args.len() <= 1 {
            let notices = one(Notice::Say { line: "Syntax: rm {directory/file}".to_owned() });
            (job, Step { notices, request: Request::Finish { error: None } })
        } else {
            job.target = 1;
            job.stage = RemoveStage::Inspecting;
            (job, Step { notices: silence(), request: Request::Inspect { path: args[1].clone() } })
        }
    }

    /// Where the job stands.
    pub fn stage(&self) -> (stage: RemoveStage)
        ensures
            stage == self@.stage,
    {
        self.stage
    }

    /// Whether the job is over.
    pub fn is_finished(&self) -> (over: bool)
        ensures
            over == (self@.stage == RemoveStage::Finished),
    {
        self.stage == RemoveStage::Finished
    }

    /// How many entries of the walk at work are done.
    pub fn done(&self) -> (count: usize)
        ensures
            count == self@.next,
    {
        self.next
    }

    /// The size of the tree at work as it was counted.
    pub fn total(&self) -> (total: u64)
        ensures
            total == self@.total,
    {
        self.total
    }

    /// Whether an abort was seen.
    pub fn was_aborted(&self) -> (aborted: bool)
        ensures
            aborted == self@.aborted,
    {
        self.aborted
    }

    fn stop(&mut self, notices: Vec<Notice>, error: Option<String>) -> (step: Step)
        ensures
            (final(self)@, step.deep_view()) == remove_stop(
                old(self)@,
                notices.deep_view(),
                error.deep_view(),
            ),
    {
        self.stage = RemoveStage::Finished;
        Step { notices, request: Request::Finish { error } }
    }

    fn turn(&mut self, notices: Vec<Notice>) -> (step: Step)
        requires
            old(self)@.target < old(self)@.args.len(),
        ensures
            (final(self)@, step.deep_view()) == remove_next(old(self)@, notices.deep_view()),
    {
        assert(self.args.deep_view().len() == self.args.len());
        let at = self.target + 1;
        self.target = at;
        if at >= self.args.len() {
            self.stop(notices, None)
        } else {
            self.stage = RemoveStage::Inspecting;
            Step { notices, request: Request::Inspect { path: self.args[at].clone() } }
        }
    }

    fn take(&mut self, at: usize, notices: Vec<Notice>) -> (step: Step)
        requires
            at <= old(self)@.entries.len(),
            0 <= old(self)@.target < old(self)@.args.len(),
        ensures
            (final(self)@, step.deep_view()) == remove_take(
                old(self)@,
                at as int,
                notices.deep_view(),
            ),
    {
        assert(self.args.deep_view().len() == self.args.len());
        self.next = at;
        if at >= self.entries.len() {
            let mut notices = notices;
            let mut message = "Deleted ".to_owned();
            message.append(self.args[self.target].as_str());
            note(&mut notices, Notice::Stop { message });
            return self.turn(notices);
        }
        match &self.entries[at] {
            Walked::Broken { reason } => {
                let reason = reason.clone();
                self.stop(notices, Some(reason))
            },
            Walked::Item { path, is_dir } => {
                let request = if *is_dir {
                    Request::RemoveDir { path: path.clone() }
                } else {
                    Request::RemoveFile { path: path.clone() }
                };
                self.stage = RemoveStage::Deleting;
                Step { notices, request }
            },
        }
    }

    /// Takes the answer to the last request and says what comes next.
    pub fn advance(&mut self, answer: Answer) -> (step: Step)
        requires
            old(self)@.wf(),
        ensures
            (final(self)@, step.deep_view()) == remove_step(old(self)@, answer.deep_view()),
            final(self)@.wf(),
    {
        proof {
            lemma_remove_step_wf(self@, answer.deep_view());
        }
        assert(self.args.deep_view().len() == self.args.len());
        assert(self.entries.deep_view().len() == self.entries.len());
        match (self.stage, answer) {
            (RemoveStage::Finished, _) => self.stop(silence(), None),
            (RemoveStage::Inspecting, Answer::Found { kind: Kind::Missing }) => {
                self.stop(one(Notice::Say { line: "Path does not exist".to_owned() }), None)
            },
            (RemoveStage::Inspecting, Answer::Found { kind: Kind::Directory }) => {
                self.stage = RemoveStage::Counting;
                Step {
                    notices: silence(),
                    request: Request::Count { path: self.args[self.target].clone() },
                }
            },
            (RemoveStage::Inspecting, Answer::Found { kind: Kind::File }) => {
                self.stage = RemoveStage::DeletingFile;
                Step {
                    notices: silence(),
                    request: Request::RemoveFile { path: self.args[self.target].clone() },
                }
            },
            (RemoveStage::Counting, Answer::Counted { total }) => {
                self.stage = RemoveStage::Listing;
                self.total = total;
                Step {
                    notices: one(Notice::Start { total }),
                    request: Request::Walk {
                        path: self.args[self.target].clone(),
                        contents_first: true,
                    },
                }
            },
            (RemoveStage::Listing, Answer::Listed { entries }) => {
                self.entries = entries;
                self.take(0, silence())
            },
            (RemoveStage::Deleting, Answer::Done { cancel }) => {
                let at = self.next + 1;
                if cancel {
                    self.next = at;
                    self.aborted = true;
                    let notices = two(
                        Notice::Advance { by: 1 },
                        Notice::Stop {
                            message: "Deletion stopped (cannot recover already deleted files)".to_owned(),
                        },
                    );
                    self.stop(notices, None)
                } else {
                    self.take(at, one(Notice::Advance { by: 1 }))
                }
            },
            (RemoveStage::DeletingFile, Answer::Done { cancel }) => {
                let mut line = "Deleted ".to_owned();
                line.append(self.args[self.target].as_str());
                self.turn(one(Notice::Say { line }))
            },
            (_, other) => {
                let reason = misfit_text(other);
                self.stop(silence(), Some(reason))
            },
        }
    }
}

/// Whether the first `count` of `entries` were all found without failure.
pub open spec fn sound_prefix(entries: Seq<WalkedView>, count: int) -> bool {
    &&& 0 <= count <= entries.len()
    &&& forall|i: int| 0 <= i < count ==> (#[trigger] entries[i]) is Item
}

/// The removal that a delete job asks for an entry.
pub open spec fn removal_of(entry: WalkedView) -> RequestView {
    match entry {
        WalkedView::Item { path, is_dir } => if is_dir {
            RequestView::RemoveDir { path }
        } else {
            RequestView::RemoveFile { path }
        },
        WalkedView::Broken { reason } => RequestView::Finish { error: Some(reason) },
    }
}

/// Where a delete job stands after a run of answers, and what it asked for on
/// each of them.
pub open spec fn remove_run(job: RemoveJobView, answers: Seq<AnswerView>) -> (
    RemoveJobView,
    Seq<RequestView>,
)
    decreases answers.len(),
{
    if answers.len() == 0 {
        (job, Seq::empty())
    } else {
        let (mid, asked) = remove_run(job, answers.drop_last());
        let (end, step) = remove_step(mid, answers.last());
        (end, asked.push(step.request))
    }
}

/// A delete removes the entries of a tree in the order of the walk, one for
/// each answer: told the entries and then `k` times that the work was done, it
/// has asked for the removal of the first `k + 1` entries, each in its turn,
/// and stands at the last of them.
pub proof fn lemma_remove_in_order(job: RemoveJobView, entries: Seq<WalkedView>, k: int)
    requires
        job.wf(),
        job.stage == RemoveStage::Listing,
        0 <= k < entries.len(),
        sound_prefix(entries, k + 1),
    ensures
        remove_run(job, seq![AnswerView::Listed { entries }] + all_done(k)).0 == (RemoveJobView {
            entries,
            next: k,
            stage: RemoveStage::Deleting,
            ..job
        }),
        remove_run(job, seq![AnswerView::Listed { entries }] + all_done(k)).1 == Seq::new(
            (k + 1) as nat,
            |i: int| removal_of(entries[i]),
        ),
    decreases k,
{
    let answers = seq![AnswerView::Listed { entries }] + all_done(k);
    if k == 0 {
        assert(answers.drop_last() =~= Seq::<AnswerView>::empty());
        assert(answers.last() == AnswerView::Listed { entries });
        assert(entries[0] is Item);
        assert(remove_run(job, answers.drop_last()) == (job, Seq::<RequestView>::empty()));
        assert(remove_run(job, answers).1 =~= Seq::new(1, |i: int| removal_of(entries[i])));
    } else {
        lemma_remove_in_order(job, entries, k - 1);
        assert(answers.drop_last() =~= seq![AnswerView::Listed { entries }] + all_done(k - 1));
        assert(answers.last() == AnswerView::Done { cancel: false });
        assert(entries[k] is Item);
        assert(remove_run(job, answers).1 =~= Seq::new(
            (k + 1) as nat,
            |i: int| removal_of(entries[i]),
        ));
    }
}

/// An abort seen after an entry was removed ends the delete: the job asks for
/// nothing but to finish, without error, and counts the entry as done.
pub proof fn lemma_remove_abort_stops(job: RemoveJobView)
    requires
        job.wf(),
        job.stage == RemoveStage::Deleting,
    ensures
        remove_step(job, AnswerView::Done { cancel: true }).1.request == (RequestView::Finish {
            error: None,
        }),
        remove_step(job, AnswerView::Done { cancel: true }).0 == (RemoveJobView {
            stage: RemoveStage::Finished,
            next: job.next + 1,
            aborted: true,
            ..job
        }),
{
}

/// A delete that is over asks for no more work, whatever it is told.
pub proof fn lemma_remove_over(job: RemoveJobView, answers: Seq<AnswerView>)
    requires
        job.stage == RemoveStage::Finished,
    ensures
        remove_run(job, answers).0 == job,
        forall|i: int|
            0 <= i < answers.len() ==> #[trigger] remove_run(job, answers).1[i] == (
            RequestView::Finish { error: None }),
        remove_run(job, answers).1.len() == answers.len(),
    decreases answers.len(),
{
    if answers.len() > 0 {
        lemma_remove_over(job, answers.drop_last());
    }
}

/// A failure ends a delete with its reason, and nothing is told.
pub proof fn lemma_remove_failure_ends(job: RemoveJobView, reason: Seq<char>)
    requires
        job.stage != RemoveStage::Finished,
    ensures
        remove_step(job, AnswerView::Failed { reason }) == remove_stop(
            job,
            Seq::empty(),
            Some(reason),
        ),
{
}

/// The first path that is missing ends a delete, without error: the paths
/// after it are not looked at.
pub proof fn lemma_remove_missing_ends(job: RemoveJobView)
    requires
        job.stage == RemoveStage::Inspecting,
    ensures
        remove_step(job, AnswerView::Found { kind: Kind::Missing }) == remove_stop(
            job,
            seq![NoticeView::Say { line: "Path does not exist"@ }],
            None,
        ),
{
}

} // verus!
