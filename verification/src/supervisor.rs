//! The supervision of the one command that runs: from its start, through an
//! interrupt that is relayed to it, to the one way it ends.

use vstd::prelude::*;
use vstd::string::*;

verus! {

/// What runs: a built-in on a worker, or an executable as a child process.
#[derive(Clone, Copy, Debug, PartialEq, Eq, Structural)]
pub enum Task {
    BuiltIn,
    Child,
}

/// Where an invocation stands.
#[derive(Clone, Copy, Debug, PartialEq, Eq, Structural)]
pub enum Phase {
    Idle,
    Dispatched,
    Running,
    CompletedOk,
    CompletedErr,
    Cancelled,
}

/// The supervisor of the foreground command.
#[derive(Clone, Copy, Debug, PartialEq, Eq, Structural)]
pub struct Supervisor {
    pub phase: Phase,
    /// What was dispatched last.
    pub task: Task,
    /// Whether the abort was handed to the running built-in.
    pub forwarded: bool,
    /// Whether a failure to ask for the child's status was reported.
    pub complained: bool,
}

/// What the caller saw happen.
pub enum Event {
    /// A line was routed to a task.
    Dispatch { task: Task },
    /// The worker or the child was started.
    Started,
    /// The child could not be started.
    StartFailed { reason: String },
    /// The user asked for the command to be aborted.
    Interrupt,
    /// The handler returned, or the child exited.
    Finished { error: Option<String> },
    /// The child's status could not be had.
    WaitFailed { reason: String },
    /// Control is back at the prompt.
    Resume,
}

/// An event as contracts see it.
pub enum EventView {
    Dispatch { task: Task },
    Started,
    StartFailed { reason: Seq<char> },
    Interrupt,
    Finished { error: Option<Seq<char>> },
    WaitFailed { reason: Seq<char> },
    Resume,
}

impl DeepView for Event {
    type V = EventView;

    open spec fn deep_view(&self) -> EventView {
        match self {
            Event::Dispatch { task } => EventView::Dispatch { task: *task },
            Event::Started => EventView::Started,
            Event::StartFailed { reason } => EventView::StartFailed { reason: reason@ },
            Event::Interrupt => EventView::Interrupt,
            Event::Finished { error } => EventView::Finished { error: error.deep_view() },
            Event::WaitFailed { reason } => EventView::WaitFailed { reason: reason@ },
            Event::Resume => EventView::Resume,
        }
    }
}

/// What the caller is to do.
pub enum Action {
    Nothing,
    /// Start the worker or the child.
    Start { task: Task },
    /// Hand one abort to the running built-in.
    ForwardCancel,
    /// Kill the child at once.
    Kill,
    /// Write `message` to the error stream.
    Log { message: String },
    /// Write `line` to the output.
    Print { line: String },
}

/// An action as contracts see it.
pub enum ActionView {
    Nothing,
    Start { task: Task },
    ForwardCancel,
    Kill,
    Log { message: Seq<char> },
    Print { line: Seq<char> },
}

impl DeepView for Action {
    type V = ActionView;

    open spec fn deep_view(&self) -> ActionView {
        match self {
            Action::Nothing => ActionView::Nothing,
            Action::Start { task } => ActionView::Start { task: *task },
            Action::ForwardCancel => ActionView::ForwardCancel,
            Action::Kill => ActionView::Kill,
            Action::Log { message } => ActionView::Log { message: message@ },
            Action::Print { line } => ActionView::Print { line: line@ },
        }
    }
}

/// Whether an invocation has ended in `phase`.
pub open spec fn is_terminal(phase: Phase) -> bool {
    phase == Phase::CompletedOk || phase == Phase::CompletedErr || phase == Phase::Cancelled
}

/// The supervisor at rest.
pub open spec fn idle() -> Supervisor {
    Supervisor { phase: Phase::Idle, task: Task::BuiltIn, forwarded: false, complained: false }
}

/// The move of the supervisor on an event.
///
/// A task is dispatched only at rest, so one command runs at a time. An
/// interrupt is handed to a running built-in once, and kills a running child.
/// A built-in that returns an error has it logged; one that returns after the
/// abort was handed on counts as cancelled, which is no error. What does not
/// fit the phase is ignored.
pub open spec fn supervise(state: Supervisor, event: EventView) -> (Supervisor, ActionView) {
    match (state.phase, event) {
        (Phase::Idle, EventView::Dispatch { task }) => (
            Supervisor { phase: Phase::Dispatched, task, forwarded: false, complained: false },
            ActionView::Start { task },
        ),
        (Phase::Dispatched, EventView::Started) => (
            Supervisor { phase: Phase::Running, ..state },
            ActionView::Nothing,
        ),
        (Phase::Dispatched, EventView::StartFailed { reason }) => (
            Supervisor { phase: Phase::CompletedErr, ..state },
            ActionView::Print { line: "Error: "@ + reason },
        ),
        (Phase::Running, EventView::Interrupt) => match state.task {
            Task::Child => (Supervisor { phase: Phase::Cancelled, ..state }, ActionView::Kill),
            Task::BuiltIn => if state.forwarded {
                (state, ActionView::Nothing)
            } else {
                (Supervisor { forwarded: true, ..state }, ActionView::ForwardCancel)
            },
        },
        (Phase::Running, EventView::Finished { error }) => match (state.task, error) {
            (Task::BuiltIn, Some(message)) => (
                Supervisor { phase: Phase::CompletedErr, ..state },
                ActionView::Log { message },
            ),
            (Task::BuiltIn, None) => (
                Supervisor {
                    phase: if state.forwarded {
                        Phase::Cancelled
                    } else {
                        Phase::CompletedOk
                    },
                    ..state
                },
                ActionView::Nothing,
            ),
            (Task::Child, _) => (
                Supervisor { phase: Phase::CompletedOk, ..state },
                ActionView::Nothing,
            ),
        },
        (Phase::Running, EventView::WaitFailed { reason }) => if state.task == Task::Child
            && !state.complained {
            (
                Supervisor { complained: true, ..state },
                ActionView::Log { message: "Error getting status of process: "@ + reason },
            )
        } else {
            (state, ActionView::Nothing)
        },
        (Phase::CompletedOk, EventView::Resume) => (
            Supervisor { phase: Phase::Idle, ..state },
            ActionView::Nothing,
        ),
        (Phase::CompletedErr, EventView::Resume) => (
            Supervisor { phase: Phase::Idle, ..state },
            ActionView::Nothing,
        ),
        (Phase::Cancelled, EventView::Resume) => (
            Supervisor { phase: Phase::Idle, ..state },
            ActionView::Nothing,
        ),
        _ => (state, ActionView::Nothing),
    }
}

impl Supervisor {
    /// A supervisor at rest.
    pub fn new() -> (out: Supervisor)
        ensures
            out == idle(),
    {
        Supervisor { phase: Phase::Idle, task: Task::BuiltIn, forwarded: false, complained: false }
    }

    /// Whether the invocation has ended.
    pub fn is_over(&self) -> (over: bool)
        ensures
            over == is_terminal(self.phase),
    {
        self.phase == Phase::CompletedOk || self.phase == Phase::CompletedErr || self.phase
            == Phase::Cancelled
    }

    /// Takes an event and says what to do.
    pub fn step(&mut self, event: Event) -> (action: Action)
        ensures
            (*final(self), action.deep_view()) == supervise(*old(self), event.deep_view()),
    {
        match (self.phase, event) {
            (Phase::Idle, Event::Dispatch { task }) => {
                self.phase = Phase::Dispatched;
                self.task = task;
                self.forwarded = false;
                self.complained = false;
                Action::Start { task }
            },
            (Phase::Dispatched, Event::Started) => {
                self.phase = Phase::Running;
                Action::Nothing
            },
            (Phase::Dispatched, Event::StartFailed { reason }) => {
                self.phase = Phase::CompletedErr;
                let mut line = "Error: ".to_owned();
                line.append(reason.as_str());
                Action::Print { line }
            },
            (Phase::Running, Event::Interrupt) => {
                match self.task {
                    Task::Child => {
                        self.phase = Phase::Cancelled;
                        Action::Kill
                    },
                    Task::BuiltIn => {
                        if self.forwarded {
                            Action::Nothing
                        } else {
                            self.forwarded = true;
                            Action::ForwardCancel
                        }
                    },
                }
            },
            (Phase::Running, Event::Finished { error }) => {
                match (self.task, error) {
                    (Task::BuiltIn, Some(message)) => {
                        self.phase = Phase::CompletedErr;
                        Action::Log { message }
                    },
                    (Task::BuiltIn, None) => {
                        self.phase = if self.forwarded {
                            Phase::Cancelled
                        } else {
                            Phase::CompletedOk
                        };
                        Action::Nothing
                    },
                    (Task::Child, _) => {
                        self.phase = Phase::CompletedOk;
                        Action::Nothing
                    },
                }
            },
            (Phase::Running, Event::WaitFailed { reason }) => {
                if self.task == Task::Child && !self.complained {
                    self.complained = true;
                    let mut message = "Error getting status of process: ".to_owned();
                    message.append(reason.as_str());
                    Action::Log { message }
                } else {
                    Action::Nothing
                }
            },
            (Phase::CompletedOk, Event::Resume) => {
                self.phase = Phase::Idle;
                Action::Nothing
            },
            (Phase::CompletedErr, Event::Resume) => {
                self.phase = Phase::Idle;
                Action::Nothing
            },
            (Phase::Cancelled, Event::Resume) => {
                self.phase = Phase::Idle;
                Action::Nothing
            },
            _ => Action::Nothing,
        }
    }
}

/// Where the supervisor stands after a run of events, and what it asked for on
/// each of them.
pub open spec fn supervise_all(state: Supervisor, events: Seq<EventView>) -> (
    Supervisor,
    Seq<ActionView>,
)
    decreases events.len(),
{
    if events.len() == 0 {
        (state, Seq::empty())
    } else {
        let (mid, asked) = supervise_all(state, events.drop_last());
        let (end, action) = supervise(mid, events.last());
        (end, asked.push(action))
    }
}

/// How often `actions` hand an abort on.
pub open spec fn forwards(actions: Seq<ActionView>) -> nat
    decreases actions.len(),
{
    if actions.len() == 0 {
        0
    } else if actions.last() is ForwardCancel {
        forwards(actions.drop_last()) + 1
    } else {
        forwards(actions.drop_last())
    }
}

/// How often `actions` start a task.
pub open spec fn starts(actions: Seq<ActionView>) -> nat
    decreases actions.len(),
{
    if actions.len() == 0 {
        0
    } else if actions.last() is Start {
        starts(actions.drop_last()) + 1
    } else {
        starts(actions.drop_last())
    }
}

/// Whether no event of `events` dispatches a task.
pub open spec fn one_invocation(events: Seq<EventView>) -> bool {
    forall|i: int| 0 <= i < events.len() ==> !((#[trigger] events[i]) is Dispatch)
}

/// Whether no event of `events` gives control back to the prompt.
pub open spec fn no_resume(events: Seq<EventView>) -> bool {
    forall|i: int| 0 <= i < events.len() ==> !((#[trigger] events[i]) is Resume)
}

/// Once an invocation has ended, it stays as it ended until control is back at
/// the prompt: nothing more is asked for, whatever happens.
pub proof fn lemma_ended_stays(state: Supervisor, events: Seq<EventView>)
    requires
        is_terminal(state.phase),
        no_resume(events),
    ensures
        supervise_all(state, events).0 == state,
        supervise_all(state, events).1.len() == events.len(),
        forall|i: int|
            0 <= i < events.len() ==> #[trigger] supervise_all(state, events).1[i]
                == ActionView::Nothing,
    decreases events.len(),
{
    if events.len() > 0 {
        assert(!(events[events.len() - 1] is Resume));
        assert forall|i: int| 0 <= i < events.drop_last().len() implies !((
        #[trigger] events.drop_last()[i]) is Resume) by {
            assert(events.drop_last()[i] == events[i]);
        }
        lemma_ended_stays(state, events.drop_last());
    }
}

/// Whether the abort can still be handed on in this invocation: a built-in is
/// dispatched or runs, and has not been handed it.
pub open spec fn may_forward(state: Supervisor) -> bool {
    (state.phase == Phase::Dispatched || state.phase == Phase::Running) && state.task
        == Task::BuiltIn && !state.forwarded
}

/// Within one invocation the abort is handed on at most once, and only to a
/// built-in that has not been handed it; and no task is started.
pub proof fn lemma_forward_once(state: Supervisor, events: Seq<EventView>)
    requires
        one_invocation(events),
    ensures
        forwards(supervise_all(state, events).1) <= 1,
        !may_forward(state) ==> forwards(supervise_all(state, events).1) == 0,
        forwards(supervise_all(state, events).1) == 1 ==> !may_forward(
            supervise_all(state, events).0,
        ),
        may_forward(supervise_all(state, events).0) ==> may_forward(state),
        starts(supervise_all(state, events).1) == 0,
    decreases events.len(),
{
    if events.len() > 0 {
        assert(!(events[events.len() - 1] is Dispatch));
        assert forall|i: int| 0 <= i < events.drop_last().len() implies !((
        #[trigger] events.drop_last()[i]) is Dispatch) by {
            assert(events.drop_last()[i] == events[i]);
        }
        lemma_forward_once(state, events.drop_last());
        let (mid, asked) = supervise_all(state, events.drop_last());
        let (end, action) = supervise(mid, events.last());
        assert(asked.push(action).drop_last() =~= asked);
        assert(asked.push(action).last() == action);
    }
}

/// A task is started only at rest: while a command is dispatched, runs or has
/// not been taken note of, a second one is not started.
pub proof fn lemma_one_at_a_time(state: Supervisor, task: Task)
    requires
        state.phase != Phase::Idle,
    ensures
        supervise(state, EventView::Dispatch { task }) == (state, ActionView::Nothing),
{
}

} // verus!
