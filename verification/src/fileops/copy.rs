//! The recursive copy: a tree entry by entry, a single file chunk by chunk.

use vstd::prelude::*;
use vstd::string::*;

use crate::fileops::{
    all_done, misfit, misfit_text, note, one, silence, two, Answer, AnswerView, Kind, Notice,
    NoticeView, Request, RequestView, Step, StepView, Walked, WalkedView,
};
use crate::pathname::{join, path_join, path_relative, relative};

verus! {

/// How many bytes the streaming copy moves at a time.
pub const CHUNK: usize = 2048;

/// Where a copy job stands.
#[derive(Clone, Copy, Debug, PartialEq, Eq, Structural)]
pub enum CopyStage {
    /// Asked what the source is.
    Inspecting,
    /// Asked for the number of entries under the source.
    Counting,
    /// Asked for the entries under the source.
    Listing,
    /// Asked to create or copy the entry at `next`.
    Placing,
    /// Asked to open the source file.
    Opening,
    /// Asked to create the target file.
    Creating,
    /// Asked to move a chunk.
    Streaming,
    /// Asked to remove the partly written target.
    Undoing,
    /// Over.
    Finished,
}

/// A recursive copy under way.
pub struct CopyJob {
    source: String,
    target: String,
    stage: CopyStage,
    entries: Vec<Walked>,
    next: usize,
    total: u64,
    aborted: bool,
}

/// A copy job as contracts see it.
pub struct CopyJobView {
    pub source: Seq<char>,
    pub target: Seq<char>,
    pub stage: CopyStage,
    /// The entries of the source tree, in the order of the walk.
    pub entries: Seq<WalkedView>,
    /// How many entries are done; while placing, the entry at work.
    pub next: int,
    /// The size of the job as it was counted before the work began.
    pub total: u64,
    /// Whether an abort was seen.
    pub aborted: bool,
}

impl CopyJobView {
    /// While an entry is being placed, there is such an entry.
    pub open spec fn wf(self) -> bool {
        &&& 0 <= self.next <= self.entries.len()
        &&& self.stage == CopyStage::Placing ==> self.next < self.entries.len()
    }
}

impl View for CopyJob {
    type V = CopyJobView;

    closed spec fn view(&self) -> CopyJobView {
        CopyJobView {
            source: self.source@,
            target: self.target@,
            stage: self.stage,
            entries: self.entries.deep_view(),
            next: self.next as int,
            total: self.total,
            aborted: self.aborted,
        }
    }
}

/// The job ends: `notices` are told and `error` is its result.
pub open spec fn copy_stop(
    job: CopyJobView,
    notices: Seq<NoticeView>,
    error: Option<Seq<char>>,
) -> (CopyJobView, StepView) {
    (
        CopyJobView { stage: CopyStage::Finished, ..job },
        StepView { notices, request: RequestView::Finish { error } },
    )
}

/// The job takes up the entry at `at`, after telling `notices`. Past the last
/// entry the copy is complete. A directory is created and a file is copied
/// whole, at the place under the target that the entry has under the source.
pub open spec fn copy_place(job: CopyJobView, at: int, notices: Seq<NoticeView>) -> (
    CopyJobView,
    StepView,
) {
    let job = CopyJobView { next: at, ..job };
    if at >= job.entries.len() {
        copy_stop(job, notices.push(NoticeView::Stop { message: "Copied "@ + job.source }), None)
    } else {
        match job.entries[at] {
            WalkedView::Broken { reason } => copy_stop(job, notices, Some(reason)),
            WalkedView::Item { path, is_dir } => match path_relative(path, job.source) {
                None => copy_stop(job, notices, Some("prefix not found"@)),
                Some(rel) => {
                    let to = path_join(job.target, rel);
                    (
                        CopyJobView { stage: CopyStage::Placing, ..job },
                        StepView {
                            notices,
                            request: if is_dir {
                                RequestView::CreateDir { path: to }
                            } else {
                                RequestView::CopyFile { from: path, to }
                            },
                        },
                    )
                },
            },
        }
    }
}

/// How a copy begins: with two paths it asks what the source is; with any other
/// number of arguments it prints its usage and is over, without error.
pub open spec fn copy_start(args: Seq<Seq<char>>) -> (CopyJobView, StepView) {
    let idle = CopyJobView {
        source: Seq::empty(),
        target: Seq::empty(),
        stage: CopyStage::Finished,
        entries: Seq::empty(),
        next: 0,
        total: 0,
        aborted: false,
    };
    if args.len() != 3 {
        copy_stop(
            idle,
            seq![
                NoticeView::Say {
                    line: "Syntax: copy {source directory/file} {destination directory/file}"@,
                },
            ],
            None,
        )
    } else {
        (
            CopyJobView {
                source: args[1],
                target: args[2],
                stage: CopyStage::Inspecting,
                ..idle
            },
            StepView { notices: Seq::empty(), request: RequestView::Inspect { path: args[1] } },
        )
    }
}

/// The move of a copy job on an answer.
///
/// A missing source is reported and is no error. A directory is counted, walked
/// and copied entry by entry; an abort seen after an entry stops the job there,
/// and nothing that was copied is taken back. A file is streamed chunk by chunk;
/// an abort seen after a chunk stops the job, and the partly written target is
/// removed. Any failure ends the job with its reason. A finished job stays
/// finished.
pub open spec fn copy_step(job: CopyJobView, answer: AnswerView) -> (CopyJobView, StepView) {
    match (job.stage, answer) {
        (CopyStage::Finished, _) => copy_stop(job, Seq::empty(), None),
        (CopyStage::Inspecting, AnswerView::Found { kind: Kind::Missing }) => copy_stop(
            job,
            seq![NoticeView::Say { line: "Path does not exist"@ }],
            None,
        ),
        (CopyStage::Inspecting, AnswerView::Found { kind: Kind::Directory }) => (
            CopyJobView { stage: CopyStage::Counting, ..job },
            StepView { notices: Seq::empty(), request: RequestView::Count { path: job.source } },
        ),
        (CopyStage::Inspecting, AnswerView::Found { kind: Kind::File }) => (
            CopyJobView { stage: CopyStage::Opening, ..job },
            StepView {
                notices: Seq::empty(),
                request: RequestView::OpenSource { path: job.source },
            },
        ),
        (CopyStage::Counting, AnswerView::Counted { total }) => (
            CopyJobView { stage: CopyStage::Listing, total, ..job },
            StepView {
                notices: seq![NoticeView::Start { total }],
                request: RequestView::Walk { path: job.source, contents_first: false },
            },
        ),
        (CopyStage::Listing, AnswerView::Listed { entries }) => copy_place(
            CopyJobView { entries, ..job },
            0,
            Seq::empty(),
        ),
        (CopyStage::Placing, AnswerView::Done { cancel }) => if cancel {
            copy_stop(
                CopyJobView { next: job.next + 1, aborted: true, ..job },
                seq![
                    NoticeView::Advance { by: 1 },
                    NoticeView::Stop {
                        message: "Copy stopped (cannot undo already copied files)"@,
                    },
                ],
                None,
            )
        } else {
            copy_place(job, job.next + 1, seq![NoticeView::Advance { by: 1 }])
        },
        (CopyStage::Opening, AnswerView::Opened { len }) => (
            CopyJobView { stage: CopyStage::Creating, total: len, ..job },
            StepView {
                notices: seq![NoticeView::Start { total: len }],
                request: RequestView::CreateTarget { path: job.target },
            },
        ),
        (CopyStage::Creating, AnswerView::Done { cancel }) => (
            CopyJobView { stage: CopyStage::Streaming, ..job },
            StepView { notices: Seq::empty(), request: RequestView::CopyChunk { limit: CHUNK } },
        ),
        (CopyStage::Streaming, AnswerView::Copied { bytes, cancel }) => if bytes == 0 {
            copy_stop(job, seq![NoticeView::Stop { message: "Copied "@ + job.source }], None)
        } else if cancel {
            (
                CopyJobView { stage: CopyStage::Undoing, aborted: true, ..job },
                StepView {
                    notices: seq![
                        NoticeView::Advance { by: bytes },
                        NoticeView::Stop { message: "Copy stopped"@ },
                    ],
                    request: RequestView::RemoveFile { path: job.target },
                },
            )
        } else {
            (
                job,
                StepView {
                    notices: seq![NoticeView::Advance { by: bytes }],
                    request: RequestView::CopyChunk { limit: CHUNK },
                },
            )
        },
        (CopyStage::Undoing, AnswerView::Done { cancel }) => copy_stop(job, Seq::empty(), None),
        (CopyStage::Undoing, AnswerView::Failed { reason }) => copy_stop(
            job,
            Seq::empty(),
            Some("Could not delete already copied file data: "@ + reason),
        ),
        (_, other) => copy_stop(job, Seq::empty(), Some(misfit(other))),
    }
}

/// A move of a well-formed copy job leaves it well formed.
pub proof fn lemma_copy_step_wf(job: CopyJobView, answer: AnswerView)
    requires
        job.wf(),
    ensures
        copy_step(job, answer).0.wf(),
{
}

impl CopyJob {
    /// Begins a copy for the arguments of the command, the command's own name
    /// first.
    pub fn start(args: &Vec<String>) -> (out: (CopyJob, Step))
        ensures
            (out.0@, out.1.deep_view()) == copy_start(args.deep_view()),
            out.0@.wf(),
    {
        if args.len() != 3 {
            let notices = one(
                Notice::Say {
                    line: "Syntax: copy {source directory/file} {destination directory/file}".to_owned(),
                },
            );
            let job = CopyJob {
                source: String::new(),
                target: String::new(),
                stage: CopyStage::Finished,
                entries: Vec::new(),
                next: 0,
                total: 0,
                aborted: false,
            };
            assert(job.entries.deep_view() =~= Seq::<WalkedView>::empty());
            (job, Step { notices, request: Request::Finish { error: None } })
        } else {
            let job = CopyJob {
                source: args[1].clone(),
                target: args[2].clone(),
                stage: CopyStage::Inspecting,
                entries: Vec::new(),
                next: 0,
                total: 0,
                aborted: false,
            };
            assert(job.entries.deep_view() =~= Seq::<WalkedView>::empty());
            (job, Step { notices: silence(), request: Request::Inspect { path: args[1].clone() } })
        }
    }

    /// Where the job stands.
    pub fn stage(&self) -> (stage: CopyStage)
        ensures
            stage == self@.stage,
    {
        self.stage
    }

    /// Whether the job is over.
    pub fn is_finished(&self) -> (over: bool)
        ensures
            over == (self@.stage == CopyStage::Finished),
    {
        self.stage == CopyStage::Finished
    }

    /// How many entries of the walk are done.
    pub fn done(&self) -> (count: usize)
        ensures
            count == self@.next,
    {
        self.next
    }

    /// The size of the job as it was counted.
    pub fn total(&self) -> (total: u64)
        ensures
            total == self@.total,
    {
        self.total
    }

    /// Whether an abort was seen.
    pub fn was_aborted(&self) -> (aborted: bool)
        ensures
            aborted == self@.aborted,
    {
        self.aborted
    }

    fn stop(&mut self, notices: Vec<Notice>, error: Option<String>) -> (step: Step)
        ensures
            (final(self)@, step.deep_view()) == copy_stop(
                old(self)@,
                notices.deep_view(),
                error.deep_view(),
            ),
    {
        self.stage = CopyStage::Finished;
        Step { notices, request: Request::Finish { error } }
    }

    fn place(&mut self, at: usize, notices: Vec<Notice>) -> (step: Step)
        requires
            at <= old(self)@.entries.len(),
        ensures
            (final(self)@, step.deep_view()) == copy_place(
                old(self)@,
                at as int,
                notices.deep_view(),
            ),
    {
        self.next = at;
        if at >= self.entries.len() {
            let mut notices = notices;
            let mut message = "Copied ".to_owned();
            message.append(self.source.as_str());
            note(&mut notices, Notice::Stop { message });
            return self.stop(notices, None);
        }
        match &self.entries[at] {
            Walked::Broken { reason } => {
                let reason = reason.clone();
                self.stop(notices, Some(reason))
            },
            Walked::Item { path, is_dir } => {
                match relative(path.as_str(), self.source.as_str()) {
                    None => self.stop(notices, Some("prefix not found".to_owned())),
                    Some(rel) => {
                        let to = join(self.target.as_str(), rel.as_str());
                        let request = if *is_dir {
                            Request::CreateDir { path: to }
                        } else {
                            Request::CopyFile { from: path.clone(), to }
                        };
                        self.stage = CopyStage::Placing;
                        Step { notices, request }
                    },
                }
            },
        }
    }

    /// Takes the answer to the last request and says what comes next.
    pub fn advance(&mut self, answer: Answer) -> (step: Step)
        requires
            old(self)@.wf(),
        ensures
            (final(self)@, step.deep_view()) == copy_step(old(self)@, answer.deep_view()),
            final(self)@.wf(),
    {
        proof {
            lemma_copy_step_wf(self@, answer.deep_view());
        }
        match (self.stage, answer) {
            (CopyStage::Finished, _) => self.stop(silence(), None),
            (CopyStage::Inspecting, Answer::Found { kind: Kind::Missing }) => {
                self.stop(one(Notice::Say { line: "Path does not exist".to_owned() }), None)
            },
            (CopyStage::Inspecting, Answer::Found { kind: Kind::Directory }) => {
                self.stage = CopyStage::Counting;
                Step { notices: silence(), request: Request::Count { path: self.source.clone() } }
            },
            (CopyStage::Inspecting, Answer::Found { kind: Kind::File }) => {
                self.stage = CopyStage::Opening;
                Step {
                    notices: silence(),
                    request: Request::OpenSource { path: self.source.clone() },
                }
            },
            (CopyStage::Counting, Answer::Counted { total }) => {
                self.stage = CopyStage::Listing;
                self.total = total;
                Step {
                    notices: one(Notice::Start { total }),
                    request: Request::Walk { path: self.source.clone(), contents_first: false },
                }
            },
            (CopyStage::Listing, Answer::Listed { entries }) => {
                self.entries = entries;
                self.place(0, silence())
            },
            (CopyStage::Placing, Answer::Done { cancel }) => {
                assert(self.entries.deep_view().len() == self.entries.len());
                let at = self.next + 1;
                if cancel {
                    self.next = at;
                    self.aborted = true;
                    let notices = two(
                        Notice::Advance { by: 1 },
                        Notice::Stop {
                            message: "Copy stopped (cannot undo already copied files)".to_owned(),
                        },
                    );
                    self.stop(notices, None)
                } else {
                    self.place(at, one(Notice::Advance { by: 1 }))
                }
            },
            (CopyStage::Opening, Answer::Opened { len }) => {
                self.stage = CopyStage::Creating;
                self.total = len;
                Step {
                    notices: one(Notice::Start { total: len }),
                    request: Request::CreateTarget { path: self.target.clone() },
                }
            },
            (CopyStage::Creating, Answer::Done { cancel }) => {
                self.stage = CopyStage::Streaming;
                Step { notices: silence(), request: Request::CopyChunk { limit: CHUNK } }
            },
            (CopyStage::Streaming, Answer::Copied { bytes, cancel }) => {
                if bytes == 0 {
                    let mut message = "Copied ".to_owned();
                    message.append(self.source.as_str());
                    self.stop(one(Notice::Stop { message }), None)
                } else if cancel {
                    self.stage = CopyStage::Undoing;
                    self.aborted = true;
                    Step {
                        notices: two(
                            Notice::Advance { by: bytes },
                            Notice::Stop { message: "Copy stopped".to_owned() },
                        ),
                        request: Request::RemoveFile { path: self.target.clone() },
                    }
                } else {
                    Step {
                        notices: one(Notice::Advance { by: bytes }),
                        request: Request::CopyChunk { limit: CHUNK },
                    }
                }
            },
            (CopyStage::Undoing, Answer::Done { cancel }) => self.stop(silence(), None),
            (CopyStage::Undoing, Answer::Failed { reason }) => {
                let mut message = "Could not delete already copied file data: ".to_owned();
                message.append(reason.as_str());
                self.stop(silence(), Some(message))
            },
            (_, other) => {
                let reason = misfit_text(other);
                self.stop(silence(), Some(reason))
            },
        }
    }
}

/// What a copy job asks for an entry: a directory is created and a file is
/// copied, at the place under the target that the entry has under the source.
pub open spec fn placement_of(source: Seq<char>, target: Seq<char>, entry: WalkedView) -> RequestView {
    match entry {
        WalkedView::Item { path, is_dir } => match path_relative(path, source) {
            Some(rel) => if is_dir {
                RequestView::CreateDir { path: path_join(target, rel) }
            } else {
                RequestView::CopyFile { from: path, to: path_join(target, rel) }
            },
            None => RequestView::Finish { error: Some("prefix not found"@) },
        },
        WalkedView::Broken { reason } => RequestView::Finish { error: Some(reason) },
    }
}

/// Whether the first `count` of `entries` were found without failure and lie
/// under `source`.
pub open spec fn placeable_prefix(source: Seq<char>, entries: Seq<WalkedView>, count: int) -> bool {
    &&& 0 <= count <= entries.len()
    &&& forall|i: int|
        0 <= i < count ==> ((#[trigger] entries[i]) matches WalkedView::Item { path, .. }
            && path_relative(path, source) is Some)
}

/// Where a copy job stands after a run of answers, and what it asked for on
/// each of them.
pub open spec fn copy_run(job: CopyJobView, answers: Seq<AnswerView>) -> (
    CopyJobView,
    Seq<RequestView>,
)
    decreases answers.len(),
{
    if answers.len() == 0 {
        (job, Seq::empty())
    } else {
        let (mid, asked) = copy_run(job, answers.drop_last());
        let (end, step) = copy_step(mid, answers.last());
        (end, asked.push(step.request))
    }
}

/// A copy places the entries of a tree in the order of the walk, one for each
/// answer: told the entries and then `k` times that the work was done, it has
/// asked for the first `k + 1` entries to be placed, each in its turn, and
/// stands at the last of them.
pub proof fn lemma_copy_in_order(job: CopyJobView, entries: Seq<WalkedView>, k: int)
    requires
        job.wf(),
        job.stage == CopyStage::Listing,
        0 <= k < entries.len(),
        placeable_prefix(job.source, entries, k + 1),
    ensures
        copy_run(job, seq![AnswerView::Listed { entries }] + all_done(k)).0 == (CopyJobView {
            entries,
            next: k,
            stage: CopyStage::Placing,
            ..job
        }),
        copy_run(job, seq![AnswerView::Listed { entries }] + all_done(k)).1 == Seq::new(
            (k + 1) as nat,
            |i: int| placement_of(job.source, job.target, entries[i]),
        ),
    decreases k,
{
    let answers = seq![AnswerView::Listed { entries }] + all_done(k);
    let expected = Seq::new(
        (k + 1) as nat,
        |i: int| placement_of(job.source, job.target, entries[i]),
    );
    if k == 0 {
        assert(answers.drop_last() =~= Seq::<AnswerView>::empty());
        assert(answers.last() == AnswerView::Listed { entries });
        assert(entries[0] is Item);
        assert(copy_run(job, answers.drop_last()) == (job, Seq::<RequestView>::empty()));
        assert(copy_run(job, answers).1 =~= expected);
    } else {
        lemma_copy_in_order(job, entries, k - 1);
        assert(answers.drop_last() =~= seq![AnswerView::Listed { entries }] + all_done(k - 1));
        assert(answers.last() == AnswerView::Done { cancel: false });
        assert(entries[k] is Item);
        assert(copy_run(job, answers).1 =~= expected);
    }
}

/// An abort seen after an entry of a tree was placed ends the copy: the job
/// asks for nothing but to finish, without error, and takes nothing back.
pub proof fn lemma_copy_abort_keeps_tree(job: CopyJobView)
    requires
        job.wf(),
        job.stage == CopyStage::Placing,
    ensures
        copy_step(job, AnswerView::Done { cancel: true }).1.request == (RequestView::Finish {
            error: None,
        }),
        copy_step(job, AnswerView::Done { cancel: true }).0 == (CopyJobView {
            stage: CopyStage::Finished,
            next: job.next + 1,
            aborted: true,
            ..job
        }),
{
}

/// An abort seen after a chunk of a single file was moved has the target
/// removed: that removal is the one thing asked for, and once it is done the
/// copy is over without error.
pub proof fn lemma_copy_abort_removes_file(job: CopyJobView, bytes: u64, cancel: bool)
    requires
        job.stage == CopyStage::Streaming,
        bytes > 0,
    ensures
        ({
            let (undoing, step) = copy_step(job, AnswerView::Copied { bytes, cancel: true });
            &&& step.request == RequestView::RemoveFile { path: job.target }
            &&& copy_step(undoing, AnswerView::Done { cancel }).1.request == (
            RequestView::Finish { error: None })
            &&& copy_step(undoing, AnswerView::Done { cancel }).0.stage == CopyStage::Finished
        }),
{
}

/// A copy that is over asks for no more work, whatever it is told.
pub proof fn lemma_copy_over(job: CopyJobView, answers: Seq<AnswerView>)
    requires
        job.stage == CopyStage::Finished,
    ensures
        copy_run(job, answers).0 == job,
        forall|i: int|
            0 <= i < answers.len() ==> #[trigger] copy_run(job, answers).1[i] == (
            RequestView::Finish { error: None }),
        copy_run(job, answers).1.len() == answers.len(),
    decreases answers.len(),
{
    if answers.len() > 0 {
        lemma_copy_over(job, answers.drop_last());
    }
}

/// A failure ends a copy with its reason, and nothing is told: whatever was
/// asked for, unless the job is over or is taking back a partly written file.
pub proof fn lemma_copy_failure_ends(job: CopyJobView, reason: Seq<char>)
    requires
        job.stage != CopyStage::Finished,
        job.stage != CopyStage::Undoing,
    ensures
        copy_step(job, AnswerView::Failed { reason }) == copy_stop(
            job,
            Seq::empty(),
            Some(reason),
        ),
{
}

} // verus!
