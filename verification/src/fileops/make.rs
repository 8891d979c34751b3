//! The making of directories: every path in its turn, until one exists.

use vstd::prelude::*;
use vstd::string::*;

use crate::fileops::{
    misfit, misfit_text, one, silence, Answer, AnswerView, Kind, Notice, NoticeView, Request,
    RequestView, Step, StepView,
};

verus! {

/// Where a job that makes directories stands.
#[derive(Clone, Copy, Debug, PartialEq, Eq, Structural)]
pub enum MakeStage {
    /// Asked what the path at work is.
    Inspecting,
    /// Asked to create the path at work.
    Creating,
    /// Over.
    Finished,
}

/// The making of directories under way.
pub struct MakeJob {
    args: Vec<String>,
    target: usize,
    stage: MakeStage,
}

/// A job that makes directories as contracts see it.
pub struct MakeJobView {
    /// The arguments of the command, its own name first.
    pub args: Seq<Seq<char>>,
    /// The position in `args` of the path at work.
    pub target: int,
    pub stage: MakeStage,
}

impl MakeJobView {
    /// A job that is not over works on one of its arguments.
    pub open spec fn wf(self) -> bool {
        &&& 0 <= self.target <= self.args.len()
        &&& self.stage != MakeStage::Finished ==> 1 <= self.target < self.args.len()
    }
}

impl View for MakeJob {
    type V = MakeJobView;

    closed spec fn view(&self) -> MakeJobView {
        MakeJobView { args: self.args.deep_view(), target: self.target as int, stage: self.stage }
    }
}

/// The job ends: `notices` are told and `error` is its result.
pub open spec fn make_stop(
    job: MakeJobView,
    notices: Seq<NoticeView>,
    error: Option<Seq<char>>,
) -> (MakeJobView, StepView) {
    (
        MakeJobView { stage: MakeStage::Finished, ..job },
        StepView { notices, request: RequestView::Finish { error } },
    )
}

/// The job turns to the argument at `at`, and is over where there is none.
pub open spec fn make_turn(job: MakeJobView, at: int) -> (MakeJobView, StepView) {
    if at >= job.args.len() {
        make_stop(MakeJobView { target: at, ..job }, Seq::empty(), None)
    } else {
        (
            MakeJobView { target: at, stage: MakeStage::Inspecting, ..job },
            StepView { notices: Seq::empty(), request: RequestView::Inspect { path: job.args[at] } },
        )
    }
}

/// How the making of directories begins: with a path to make it asks what the
/// first one is; without one it prints its usage and is over, without error.
pub open spec fn make_start(args: Seq<Seq<char>>) -> (MakeJobView, StepView) {
    let idle = MakeJobView { args, target: 0, stage: MakeStage::Finished };
    if args.len() <= 1 {
        make_stop(idle, seq![NoticeView::Say { line: "Syntax: mkdir {directory}"@ }], None)
    } else {
        make_turn(idle, 1)
    }
}

/// The move of a job that makes directories on an answer.
///
/// The paths are taken in the order given. A path that is missing is created,
/// with what is missing above it. A path that exists is reported and ends the
/// whole job, without error. Any failure ends the job with its reason. A
/// finished job stays finished.
pub open spec fn make_step(job: MakeJobView, answer: AnswerView) -> (MakeJobView, StepView) {
    match (job.stage, answer) {
        (MakeStage::Finished, _) => make_stop(job, Seq::empty(), None),
        (MakeStage::Inspecting, AnswerView::Found { kind: Kind::Missing }) => (
            MakeJobView { stage: MakeStage::Creating, ..job },
            StepView {
                notices: Seq::empty(),
                request: RequestView::CreateTree { path: job.args[job.target] },
            },
        ),
        (MakeStage::Inspecting, AnswerView::Found { kind }) => make_stop(
            job,
            seq![NoticeView::Say { line: "Path already exists"@ }],
            None,
        ),
        (MakeStage::Creating, AnswerView::Done { cancel }) => make_turn(job, job.target + 1),
        (_, other) => make_stop(job, Seq::empty(), Some(misfit(other))),
    }
}

/// A move of a well-formed job leaves it well formed.
pub proof fn lemma_make_step_wf(job: MakeJobView, answer: AnswerView)
    requires
        job.wf(),
    ensures
        make_step(job, answer).0.wf(),
{
}

impl MakeJob {
    /// Begins the making of directories for the arguments of the command, the
    /// command's own name first.
    pub fn start(args: &Vec<String>) -> (out: (MakeJob, Step))
        ensures
            (out.0@, out.1.deep_view()) == make_start(args.deep_view()),
            out.0@.wf(),
    {
        let mut job = MakeJob { args: args.clone(), target: 0, stage: MakeStage::Finished };
        if args.len() <= 1 {
            let notices = one(Notice::Say { line: "Syntax: mkdir {directory}".to_owned() });
            (job, Step { notices, request: Request::Finish { error: None } })
        } else {
            let step = job.turn(1);
            (job, step)
        }
    }

    /// Whether the job is over.
    pub fn is_finished(&self) -> (over: bool)
        ensures
            over == (self@.stage == MakeStage::Finished),
    {
        self.stage == MakeStage::Finished
    }

    fn stop(&mut self, notices: Vec<Notice>, error: Option<String>) -> (step: Step)
        ensures
            (final(self)@, step.deep_view()) == make_stop(
                old(self)@,
                notices.deep_view(),
                error.deep_view(),
            ),
    {
        self.stage = MakeStage::Finished;
        Step { notices, request: Request::Finish { error } }
    }

    fn turn(&mut self, at: usize) -> (step: Step)
        ensures
            (final(self)@, step.deep_view()) == make_turn(old(self)@, at as int),
    {
        assert(self.args.deep_view().len() == self.args.len());
        self.target = at;
        if at >= self.args.len() {
            self.stop(silence(), None)
        } else {
            self.stage = MakeStage::Inspecting;
            Step { notices: silence(), request: Request::Inspect { path: self.args[at].clone() } }
        }
    }

    /// Takes the answer to the last request and says what comes next.
    pub fn advance(&mut self, answer: Answer) -> (step: Step)
        requires
            old(self)@.wf(),
        ensures
            (final(self)@, step.deep_view()) == make_step(old(self)@, answer.deep_view()),
            final(self)@.wf(),
    {
        proof {
            lemma_make_step_wf(self@, answer.deep_view());
        }
        assert(self.args.deep_view().len() == self.args.len());
        match (self.stage, answer) {
            (MakeStage::Finished, _) => self.stop(silence(), None),
            (MakeStage::Inspecting, Answer::Found { kind: Kind::Missing }) => {
                self.stage = MakeStage::Creating;
                Step {
                    notices: silence(),
                    request: Request::CreateTree { path: self.args[self.target].clone() },
                }
            },
            (MakeStage::Inspecting, Answer::Found { kind }) => {
                self.stop(one(Notice::Say { line: "Path already exists".to_owned() }), None)
            },
            (MakeStage::Creating, Answer::Done { cancel }) => {
                let at = self.target + 1;
                self.turn(at)
            },
            (_, other) => {
                let reason = misfit_text(other);
                self.stop(silence(), Some(reason))
            },
        }
    }
}

} // verus!
