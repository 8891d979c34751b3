use shell_core::supervisor::{Action, Event, Phase, Supervisor, Task};

fn name(action: &Action) -> String {
    match action {
        Action::Nothing => "nothing".to_string(),
        Action::Start { task } => format!("start {:?}", task),
        Action::ForwardCancel => "forward".to_string(),
        Action::Kill => "kill".to_string(),
        Action::Log { message } => format!("log {}", message),
        Action::Print { line } => format!("print {}", line),
    }
}

fn finished(error: Option<&str>) -> Event {
    Event::Finished { error: error.map(|e| e.to_string()) }
}

#[test]
fn builtin_runs_to_completion() {
    let mut s = Supervisor::new();
    assert_eq!(s.phase, Phase::Idle);
    assert_eq!(name(&s.step(Event::Dispatch { task: Task::BuiltIn })), "start BuiltIn");
    assert_eq!(s.phase, Phase::Dispatched);
    assert_eq!(name(&s.step(Event::Started)), "nothing");
    assert_eq!(s.phase, Phase::Running);
    assert!(!s.is_over());
    assert_eq!(name(&s.step(finished(None))), "nothing");
    assert_eq!(s.phase, Phase::CompletedOk);
    assert!(s.is_over());
    assert_eq!(name(&s.step(Event::Resume)), "nothing");
    assert_eq!(s, Supervisor { phase: Phase::Idle, ..s });
    assert_eq!(s.phase, Phase::Idle);
}

#[test]
fn builtin_error_is_logged() {
    let mut s = Supervisor::new();
    s.step(Event::Dispatch { task: Task::BuiltIn });
    s.step(Event::Started);
    assert_eq!(name(&s.step(finished(Some("Directory does not exist")))), "log Directory does not exist");
    assert_eq!(s.phase, Phase::CompletedErr);
}

#[test]
fn interrupt_is_forwarded_once() {
    let mut s = Supervisor::new();
    s.step(Event::Dispatch { task: Task::BuiltIn });
    s.step(Event::Started);
    assert_eq!(name(&s.step(Event::Interrupt)), "forward");
    assert_eq!(name(&s.step(Event::Interrupt)), "nothing");
    assert_eq!(name(&s.step(Event::Interrupt)), "nothing");
    assert_eq!(s.phase, Phase::Running);
    assert_eq!(name(&s.step(finished(None))), "nothing");
    assert_eq!(s.phase, Phase::Cancelled);
}

#[test]
fn error_after_cancel_is_still_an_error() {
    let mut s = Supervisor::new();
    s.step(Event::Dispatch { task: Task::BuiltIn });
    s.step(Event::Started);
    s.step(Event::Interrupt);
    assert_eq!(
        name(&s.step(finished(Some("Could not aquire variable mutex")))),
        "log Could not aquire variable mutex"
    );
    assert_eq!(s.phase, Phase::CompletedErr);
}

#[test]
fn interrupt_kills_a_child_at_once() {
    let mut s = Supervisor::new();
    assert_eq!(name(&s.step(Event::Dispatch { task: Task::Child })), "start Child");
    s.step(Event::Started);
    assert_eq!(name(&s.step(Event::Interrupt)), "kill");
    assert_eq!(s.phase, Phase::Cancelled);
    assert_eq!(name(&s.step(finished(None))), "nothing");
    assert_eq!(s.phase, Phase::Cancelled);
}

#[test]
fn child_exit_completes() {
    let mut s = Supervisor::new();
    s.step(Event::Dispatch { task: Task::Child });
    s.step(Event::Started);
    assert_eq!(name(&s.step(finished(Some("ignored")))), "nothing");
    assert_eq!(s.phase, Phase::CompletedOk);
}

#[test]
fn child_that_cannot_start_is_reported() {
    let mut s = Supervisor::new();
    s.step(Event::Dispatch { task: Task::Child });
    assert_eq!(
        name(&s.step(Event::StartFailed { reason: "No such file".to_string() })),
        "print Error: No such file"
    );
    assert_eq!(s.phase, Phase::CompletedErr);
}

#[test]
fn status_failure_is_reported_once() {
    let mut s = Supervisor::new();
    s.step(Event::Dispatch { task: Task::Child });
    s.step(Event::Started);
    assert_eq!(
        name(&s.step(Event::WaitFailed { reason: "gone".to_string() })),
        "log Error getting status of process: gone"
    );
    assert_eq!(name(&s.step(Event::WaitFailed { reason: "gone".to_string() })), "nothing");
    assert_eq!(s.phase, Phase::Running);
}

#[test]
fn only_one_command_at_a_time() {
    let mut s = Supervisor::new();
    s.step(Event::Dispatch { task: Task::BuiltIn });
    assert_eq!(name(&s.step(Event::Dispatch { task: Task::Child })), "nothing");
    assert_eq!(s.task, Task::BuiltIn);
    s.step(Event::Started);
    assert_eq!(name(&s.step(Event::Dispatch { task: Task::Child })), "nothing");
    assert_eq!(s.phase, Phase::Running);
    s.step(finished(None));
    assert_eq!(name(&s.step(Event::Dispatch { task: Task::Child })), "nothing");
    assert_eq!(s.phase, Phase::CompletedOk);
    s.step(Event::Resume);
    assert_eq!(name(&s.step(Event::Dispatch { task: Task::Child })), "start Child");
}

#[test]
fn a_new_invocation_can_be_cancelled_again() {
    let mut s = Supervisor::new();
    s.step(Event::Dispatch { task: Task::BuiltIn });
    s.step(Event::Started);
    s.step(Event::Interrupt);
    s.step(finished(None));
    s.step(Event::Resume);
    s.step(Event::Dispatch { task: Task::BuiltIn });
    s.step(Event::Started);
    assert_eq!(name(&s.step(Event::Interrupt)), "forward");
}

#[test]
fn stray_events_are_ignored() {
    let mut s = Supervisor::new();
    assert_eq!(name(&s.step(Event::Interrupt)), "nothing");
    assert_eq!(name(&s.step(Event::Started)), "nothing");
    assert_eq!(name(&s.step(finished(Some("x")))), "nothing");
    assert_eq!(name(&s.step(Event::Resume)), "nothing");
    assert_eq!(s, Supervisor::new());
}
