use pls::job::JobStatus;
use pls::supervisor::{
    exit_status, wait_failure_status, Action, Event, Phase, Supervisor, KILLED_BY, UNKNOWN_EXIT,
};

fn watching() -> Supervisor {
    let mut supervisor = Supervisor::new();
    assert_eq!(supervisor.pending(), Action::Open);
    assert_eq!(supervisor.handle(Event::Opened { ok: true }), Action::Watch);
    supervisor
}

/// Runs the events on a supervisor whose files were made.
fn run(events: &[Event]) -> (Supervisor, Vec<Action>) {
    let mut supervisor = watching();
    let mut actions = Vec::new();
    for event in events {
        actions.push(supervisor.handle(*event));
    }
    (supervisor, actions)
}

#[test]
fn new_supervisor_makes_the_files_first() {
    let mut supervisor = Supervisor::new();
    assert_eq!(supervisor.phase, Phase::Opening);
    assert_eq!(supervisor.status, JobStatus::Running);
    assert!(!supervisor.completion);
    assert_eq!(supervisor.pending(), Action::Open);
    assert_eq!(supervisor.handle(Event::CancelRequested), Action::Open);
    assert_eq!(supervisor.handle(Event::ChildExited { code: Some(0), signal: None }), Action::Open);
    assert_eq!(supervisor.handle(Event::Opened { ok: true }), Action::Watch);
    assert_eq!(supervisor.phase, Phase::Watching);
    assert_eq!(supervisor.pending(), Action::Watch);
}

#[test]
fn files_that_cannot_be_made_end_the_supervisor_without_a_status() {
    let mut supervisor = Supervisor::new();
    assert_eq!(supervisor.handle(Event::Opened { ok: false }), Action::Stop);
    assert_eq!(supervisor.phase, Phase::Failed);
    assert_eq!(supervisor.status, JobStatus::Running);
    assert!(!supervisor.completion);
    assert_eq!(supervisor.handle(Event::Opened { ok: true }), Action::Stop);
    assert_eq!(supervisor.handle(Event::ChildExited { code: Some(0), signal: None }), Action::Stop);
    assert_eq!(supervisor.status, JobStatus::Running);
}

#[test]
fn exit_is_reported_after_the_flush() {
    let mut supervisor = watching();
    let action = supervisor.handle(Event::ChildExited { code: Some(7), signal: None });
    assert_eq!(action, Action::Flush);
    assert_eq!(supervisor.status, JobStatus::Running);
    assert!(!supervisor.completion);
    assert_eq!(supervisor.phase, Phase::FlushingToReport(JobStatus::Exit(7)));
    let action = supervisor.handle(Event::Flushed { ok: true });
    assert_eq!(action, Action::Stop);
    assert_eq!(supervisor.status, JobStatus::Exit(7));
    assert!(supervisor.completion);
    assert_eq!(supervisor.phase, Phase::Done);
}

#[test]
fn cancel_flushes_then_kills_then_reports_signal_nine() {
    let (supervisor, actions) = run(&[
        Event::Copied { ok: true },
        Event::CancelRequested,
        Event::Flushed { ok: true },
        Event::Killed { ok: true },
    ]);
    assert_eq!(actions, vec![Action::Watch, Action::Flush, Action::Kill, Action::Stop]);
    assert_eq!(supervisor.status, JobStatus::Signal(9));
    assert_eq!(KILLED_BY, 9);
    assert!(supervisor.completion);
}

#[test]
fn status_stays_running_until_the_kill_is_done() {
    let (supervisor, _) = run(&[Event::CancelRequested, Event::Flushed { ok: true }]);
    assert_eq!(supervisor.phase, Phase::Killing);
    assert_eq!(supervisor.status, JobStatus::Running);
    assert!(!supervisor.completion);
}

#[test]
fn copy_errors_do_not_end_the_job() {
    let (supervisor, actions) = run(&[
        Event::Copied { ok: false },
        Event::Copied { ok: false },
        Event::Copied { ok: true },
    ]);
    assert_eq!(actions, vec![Action::Watch, Action::Watch, Action::Watch]);
    assert_eq!(supervisor, watching());
}

#[test]
fn failed_flush_ends_the_supervisor_without_a_status() {
    let (supervisor, actions) =
        run(&[Event::ChildExited { code: Some(0), signal: None }, Event::Flushed { ok: false }]);
    assert_eq!(actions, vec![Action::Flush, Action::Stop]);
    assert_eq!(supervisor.phase, Phase::Failed);
    assert_eq!(supervisor.status, JobStatus::Running);
    assert!(!supervisor.completion);

    let (supervisor, actions) = run(&[Event::CancelRequested, Event::Flushed { ok: false }]);
    assert_eq!(actions, vec![Action::Flush, Action::Stop]);
    assert_eq!(supervisor.phase, Phase::Failed);
    assert_eq!(supervisor.status, JobStatus::Running);
}

#[test]
fn failed_kill_ends_the_supervisor_without_a_status() {
    let (supervisor, actions) = run(&[
        Event::CancelRequested,
        Event::Flushed { ok: true },
        Event::Killed { ok: false },
    ]);
    assert_eq!(actions, vec![Action::Flush, Action::Kill, Action::Stop]);
    assert_eq!(supervisor.phase, Phase::Failed);
    assert_eq!(supervisor.status, JobStatus::Running);
    assert!(!supervisor.completion);
}

#[test]
fn exit_disposition_prefers_the_code() {
    assert_eq!(exit_status(Some(0), None), JobStatus::Exit(0));
    assert_eq!(exit_status(Some(3), Some(15)), JobStatus::Exit(3));
    assert_eq!(exit_status(None, Some(15)), JobStatus::Signal(15));
    assert_eq!(exit_status(None, None), JobStatus::Exit(-1));
    assert_eq!(UNKNOWN_EXIT, -1);
}

#[test]
fn wait_failure_reports_the_os_error_as_exit_code() {
    assert_eq!(wait_failure_status(Some(10)), JobStatus::Exit(10));
    assert_eq!(wait_failure_status(None), JobStatus::Exit(-1));
    let (supervisor, _) =
        run(&[Event::WaitFailed { os_error: Some(10) }, Event::Flushed { ok: true }]);
    assert_eq!(supervisor.status, JobStatus::Exit(10));
    assert!(supervisor.completion);
}

#[test]
fn signaled_child_is_reported_with_its_signal() {
    let (supervisor, _) =
        run(&[Event::ChildExited { code: None, signal: Some(11) }, Event::Flushed { ok: true }]);
    assert_eq!(supervisor.status, JobStatus::Signal(11));
}

#[test]
fn status_never_returns_to_running() {
    let events = [
        Event::Copied { ok: true },
        Event::ChildExited { code: Some(2), signal: None },
        Event::CancelRequested,
        Event::Flushed { ok: true },
        Event::CancelRequested,
        Event::ChildExited { code: Some(5), signal: None },
        Event::Flushed { ok: true },
        Event::Killed { ok: true },
        Event::WaitFailed { os_error: None },
        Event::Copied { ok: false },
    ];
    let mut supervisor = watching();
    let mut seen_final: Option<JobStatus> = None;
    for event in events {
        supervisor.handle(event);
        if let Some(status) = seen_final {
            assert_eq!(supervisor.status, status);
            assert!(supervisor.completion);
        } else if supervisor.status != JobStatus::Running {
            seen_final = Some(supervisor.status);
            assert!(supervisor.completion);
        } else {
            assert!(!supervisor.completion);
        }
    }
    assert_eq!(seen_final, Some(JobStatus::Exit(2)));
}

#[test]
fn exit_wins_over_a_later_cancel() {
    let (supervisor, actions) = run(&[
        Event::ChildExited { code: Some(0), signal: None },
        Event::CancelRequested,
        Event::Flushed { ok: true },
    ]);
    assert_eq!(actions, vec![Action::Flush, Action::Flush, Action::Stop]);
    assert_eq!(supervisor.status, JobStatus::Exit(0));
}

#[test]
fn many_cancel_requests_are_one() {
    let (once, _) = run(&[Event::CancelRequested]);
    for k in 2..6 {
        let (many, actions) = run(&vec![Event::CancelRequested; k]);
        assert_eq!(many, once);
        assert_eq!(actions, vec![Action::Flush; k]);
    }
    let (done, _) = run(&[
        Event::CancelRequested,
        Event::Flushed { ok: true },
        Event::Killed { ok: true },
    ]);
    let mut again = done;
    assert_eq!(again.handle(Event::CancelRequested), Action::Stop);
    assert_eq!(again.handle(Event::CancelRequested), Action::Stop);
    assert_eq!(again, done);
}

#[test]
fn stray_results_repeat_the_pending_action() {
    let mut supervisor = watching();
    assert_eq!(supervisor.handle(Event::Flushed { ok: true }), Action::Watch);
    assert_eq!(supervisor.handle(Event::Killed { ok: true }), Action::Watch);
    assert_eq!(supervisor.handle(Event::Opened { ok: false }), Action::Watch);
    assert_eq!(supervisor, watching());
    supervisor.handle(Event::CancelRequested);
    assert_eq!(supervisor.handle(Event::Killed { ok: true }), Action::Flush);
    assert_eq!(supervisor.phase, Phase::FlushingToCancel);
}
