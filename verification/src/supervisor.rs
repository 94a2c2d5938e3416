//! What a job's supervisor decides.
//!
//! The supervisor owns the child from the moment it is spawned. It makes the
//! two output files, then waits on four things at once (the two output
//! copies, the cancel signal, the child's exit), and whichever comes first is
//! handed to [`Supervisor::handle`] as an [`Event`]. The answer is the
//! [`Action`] to perform next; its result comes back as the next event. The
//! status leaves `Running` in one step, together with the completion flag,
//! and nothing changes afterwards.

use crate::job::JobStatus;
use vstd::prelude::*;

verus! {

/// Something the supervisor has learnt.
#[derive(Clone, Copy, Debug, PartialEq, Eq)]
pub enum Event {
    /// The two output files were made, or one of them could not be.
    Opened { ok: bool },
    /// A copy of the child's output into its file has ended, well or not.
    Copied { ok: bool },
    /// The cancel signal has fired.
    CancelRequested,
    /// The child has ended and was reaped.
    ChildExited { code: Option<i32>, signal: Option<i32> },
    /// Waiting for the child failed, with this OS error if there was one.
    WaitFailed { os_error: Option<i32> },
    /// Both output files were flushed, or one of them could not be.
    Flushed { ok: bool },
    /// The child was killed, or could not be.
    Killed { ok: bool },
}

/// What to do next.
#[derive(Clone, Copy, Debug, PartialEq, Eq)]
pub enum Action {
    /// Make the file for the child's standard output, then the one for its
    /// standard error, both empty, and report with [`Event::Opened`].
    Open,
    /// Wait for output, cancellation or the child's exit, whichever is first.
    Watch,
    /// Flush the file of the child's standard output, then that of its
    /// standard error, and report with [`Event::Flushed`].
    Flush,
    /// Kill the child and report with [`Event::Killed`].
    Kill,
    /// Leave the loop; there is nothing more to do.
    Stop,
}

/// How far the supervisor has come.
#[derive(Clone, Copy, Debug, PartialEq, Eq)]
pub enum Phase {
    /// The child runs; the output files are being made.
    Opening,
    /// The child runs and its output is copied.
    Watching,
    /// Cancellation was asked for; the files are being flushed.
    FlushingToCancel,
    /// Cancellation was asked for and the files are flushed; the child is
    /// being killed.
    Killing,
    /// The child has ended, with the status held here; the files are being
    /// flushed.
    FlushingToReport(JobStatus),
    /// The final status is set and completion is announced.
    Done,
    /// An output file could not be made, or a flush or the kill failed. The
    /// status stays `Running` and completion is never announced.
    Failed,
}

/// The state of one job's supervisor.
#[derive(Clone, Copy, Debug, PartialEq, Eq)]
pub struct Supervisor {
    pub phase: Phase,
    pub status: JobStatus,
    pub completion: bool,
}

/// The signal that a cancelled job is ended with: `SIGKILL`.
pub const KILLED_BY: i32 = 9;

/// The exit code reported for a child of which the system says neither how
/// it exited nor which signal ended it.
pub const UNKNOWN_EXIT: i32 = -1;

/// The status of a child that has ended: its exit code if it has one, else
/// the signal that ended it, else `Exit(-1)`.
pub open spec fn disposition(code: Option<i32>, signal: Option<i32>) -> JobStatus {
    match code {
        Some(code) => JobStatus::Exit(code),
        None => match signal {
            Some(signal) => JobStatus::Signal(signal),
            None => JobStatus::Exit(UNKNOWN_EXIT),
        },
    }
}

/// The status of a child that could not be waited for: the OS error as its
/// exit code, `-1` where there is none.
pub open spec fn wait_failure(os_error: Option<i32>) -> JobStatus {
    match os_error {
        Some(errno) => JobStatus::Exit(errno),
        None => JobStatus::Exit(UNKNOWN_EXIT),
    }
}

/// The action that a phase is waiting for.
pub open spec fn pending(phase: Phase) -> Action {
    match phase {
        Phase::Opening => Action::Open,
        Phase::Watching => Action::Watch,
        Phase::FlushingToCancel => Action::Flush,
        Phase::Killing => Action::Kill,
        Phase::FlushingToReport(_) => Action::Flush,
        Phase::Done => Action::Stop,
        Phase::Failed => Action::Stop,
    }
}

/// The supervisor of a job that has just been spawned.
pub open spec fn initial() -> Supervisor {
    Supervisor { phase: Phase::Opening, status: JobStatus::Running, completion: false }
}

/// The supervisor that has set the final status `status` and announced it.
pub open spec fn finished(status: JobStatus) -> Supervisor {
    Supervisor { phase: Phase::Done, status, completion: true }
}

/// The state that follows `s` on `event`. An event that the phase does not
/// wait for changes nothing.
pub open spec fn next(s: Supervisor, event: Event) -> Supervisor {
    match (s.phase, event) {
        (Phase::Opening, Event::Opened { ok }) => if ok {
            Supervisor { phase: Phase::Watching, ..s }
        } else {
            Supervisor { phase: Phase::Failed, ..s }
        },
        (Phase::Watching, Event::CancelRequested) => Supervisor {
            phase: Phase::FlushingToCancel,
            ..s
        },
        (Phase::Watching, Event::ChildExited { code, signal }) => Supervisor {
            phase: Phase::FlushingToReport(disposition(code, signal)),
            ..s
        },
        (Phase::Watching, Event::WaitFailed { os_error }) => Supervisor {
            phase: Phase::FlushingToReport(wait_failure(os_error)),
            ..s
        },
        (Phase::FlushingToCancel, Event::Flushed { ok }) => if ok {
            Supervisor { phase: Phase::Killing, ..s }
        } else {
            Supervisor { phase: Phase::Failed, ..s }
        },
        (Phase::Killing, Event::Killed { ok }) => if ok {
            finished(JobStatus::Signal(KILLED_BY))
        } else {
            Supervisor { phase: Phase::Failed, ..s }
        },
        (Phase::FlushingToReport(status), Event::Flushed { ok }) => if ok {
            finished(status)
        } else {
            Supervisor { phase: Phase::Failed, ..s }
        },
        _ => s,
    }
}

/// The state that follows `s` on `event`, and what to do next.
pub open spec fn step(s: Supervisor, event: Event) -> (Supervisor, Action) {
    (next(s, event), pending(next(s, event).phase))
}

/// The state after a run of events, taken one after the other.
pub open spec fn run(s: Supervisor, events: Seq<Event>) -> Supervisor
    decreases events.len(),
{
    if events.len() == 0 {
        s
    } else {
        next(run(s, events.drop_last()), events.last())
    }
}

impl JobStatus {
    /// Whether the job has ended.
    pub open spec fn is_final(self) -> bool {
        self != JobStatus::Running
    }
}

impl Supervisor {
    /// What holds of every state that a supervisor can be in: the status is
    /// final exactly in phase `Done`, completion is announced exactly there,
    /// and a status that waits to be reported is a final one.
    pub open spec fn well_formed(self) -> bool {
        &&& self.status.is_final() <==> self.phase == Phase::Done
        &&& self.completion <==> self.phase == Phase::Done
        &&& self.phase matches Phase::FlushingToReport(status) ==> status.is_final()
    }

    /// The supervisor of a job that has just been spawned.
    pub fn new() -> (s: Self)
        ensures
            s == initial(),
            s.well_formed(),
    {
        Supervisor { phase: Phase::Opening, status: JobStatus::Running, completion: false }
    }

    /// What the supervisor waits to be done. For a new supervisor this is
    /// the first thing to do.
    pub fn pending(&self) -> (action: Action)
        ensures
            action == pending(self.phase),
    {
        match self.phase {
            Phase::Opening => Action::Open,
            Phase::Watching => Action::Watch,
            Phase::FlushingToCancel => Action::Flush,
            Phase::Killing => Action::Kill,
            Phase::FlushingToReport(_) => Action::Flush,
            Phase::Done => Action::Stop,
            Phase::Failed => Action::Stop,
        }
    }

    /// Takes in `event` and says what to do next.
    pub fn handle(&mut self, event: Event) -> (action: Action)
        ensures
            (*final(self), action) == step(*old(self), event),
            old(self).well_formed() ==> final(self).well_formed(),
    {
        let phase = match (self.phase, event) {
            (Phase::Opening, Event::Opened { ok }) => if ok {
                Phase::Watching
            } else {
                Phase::Failed
            },
            (Phase::Watching, Event::CancelRequested) => Phase::FlushingToCancel,
            (Phase::Watching, Event::ChildExited { code, signal }) => Phase::FlushingToReport(
                exit_status(code, signal),
            ),
            (Phase::Watching, Event::WaitFailed { os_error }) => Phase::FlushingToReport(
                wait_failure_status(os_error),
            ),
            (Phase::FlushingToCancel, Event::Flushed { ok }) => if ok {
                Phase::Killing
            } else {
                Phase::Failed
            },
            (Phase::Killing, Event::Killed { ok }) => if ok {
                self.status = JobStatus::Signal(KILLED_BY);
                self.completion = true;
                Phase::Done
            } else {
                Phase::Failed
            },
            (Phase::FlushingToReport(status), Event::Flushed { ok }) => if ok {
                self.status = status;
                self.completion = true;
                Phase::Done
            } else {
                Phase::Failed
            },
            (phase, _) => phase,
        };
        self.phase = phase;
        self.pending()
    }
}

/// The status of a child that has ended.
pub fn exit_status(code: Option<i32>, signal: Option<i32>) -> (status: JobStatus)
    ensures
        status == disposition(code, signal),
        status.is_final(),
{
    match code {
        Some(code) => JobStatus::Exit(code),
        None => match signal {
            Some(signal) => JobStatus::Signal(signal),
            None => JobStatus::Exit(UNKNOWN_EXIT),
        },
    }
}

/// The status of a child that could not be waited for.
pub fn wait_failure_status(os_error: Option<i32>) -> (status: JobStatus)
    ensures
        status == wait_failure(os_error),
        status.is_final(),
{
    match os_error {
        Some(errno) => JobStatus::Exit(errno),
        None => JobStatus::Exit(UNKNOWN_EXIT),
    }
}

/// Every step keeps a supervisor well formed.
pub proof fn lemma_next_well_formed(s: Supervisor, event: Event)
    requires
        s.well_formed(),
    ensures
        next(s, event).well_formed(),
{
}

/// Every run from a well-formed state ends in one.
pub proof fn lemma_run_well_formed(s: Supervisor, events: Seq<Event>)
    requires
        s.well_formed(),
    ensures
        run(s, events).well_formed(),
    decreases events.len(),
{
    if events.len() > 0 {
        lemma_run_well_formed(s, events.drop_last());
        lemma_next_well_formed(run(s, events.drop_last()), events.last());
    }
}

/// A run over `events` is a run over its first `i` events, followed by a run
/// over the rest.
pub proof fn lemma_run_split(s: Supervisor, events: Seq<Event>, i: int)
    requires
        0 <= i <= events.len(),
    ensures
        run(s, events) == run(run(s, events.take(i)), events.skip(i)),
    decreases events.len(),
{
    if i == events.len() {
        assert(events.take(i) =~= events);
        assert(events.skip(i) =~= Seq::<Event>::empty());
    } else {
        lemma_run_split(s, events.drop_last(), i);
        assert(events.drop_last().take(i) =~= events.take(i));
        assert(events.drop_last().skip(i) =~= events.skip(i).drop_last());
        assert(events.skip(i).last() == events.last());
    }
}

/// Once the status is final, no event changes anything: not the status, not
/// the completion flag, not the phase.
pub proof fn lemma_final_is_fixed(s: Supervisor, events: Seq<Event>)
    requires
        s.well_formed(),
        s.status.is_final(),
    ensures
        run(s, events) == s,
    decreases events.len(),
{
    if events.len() > 0 {
        lemma_final_is_fixed(s, events.drop_last());
    }
}

/// Whoever looks at a job after `i` events and again after `j >= i` events of
/// its life, and sees a status other than `Running` the first time, sees the
/// same status the second time: the status leaves `Running` once and never
/// comes back.
pub proof fn lemma_status_monotone(events: Seq<Event>, i: int, j: int)
    requires
        0 <= i <= j <= events.len(),
    ensures
        run(initial(), events.take(i)).status.is_final() ==> run(initial(), events.take(j)).status
            == run(initial(), events.take(i)).status,
{
    let early = run(initial(), events.take(i));
    lemma_run_well_formed(initial(), events.take(i));
    lemma_run_split(initial(), events.take(j), i);
    assert(events.take(j).take(i) =~= events.take(i));
    if early.status.is_final() {
        lemma_final_is_fixed(early, events.take(j).skip(i));
    }
}

/// Whoever sees the completion flag set after `i` events of a job's life
/// finds a final status then and at every later time, and the flag stays
/// set: it goes from `false` to `true` once.
pub proof fn lemma_completion_after_status(events: Seq<Event>, i: int, j: int)
    requires
        0 <= i <= j <= events.len(),
    ensures
        run(initial(), events.take(i)).completion ==> {
            &&& run(initial(), events.take(i)).status.is_final()
            &&& run(initial(), events.take(j)).status.is_final()
            &&& run(initial(), events.take(j)).completion
        },
{
    lemma_run_well_formed(initial(), events.take(i));
    lemma_run_split(initial(), events.take(j), i);
    assert(events.take(j).take(i) =~= events.take(i));
    let early = run(initial(), events.take(i));
    if early.completion {
        lemma_final_is_fixed(early, events.take(j).skip(i));
    }
}

/// Whoever sees the completion flag set after some events of a job's life and
/// then reads the status, at that time or later, is told how the job ended.
pub proof fn lemma_outcome_after_completion(events: Seq<Event>, i: int, j: int)
    requires
        0 <= i <= j <= events.len(),
        run(initial(), events.take(i)).completion,
    ensures
        crate::job::report(run(initial(), events.take(j)).status).outcome is Some,
        crate::job::report(run(initial(), events.take(j)).status) == crate::job::report(
            run(initial(), events.take(i)).status,
        ),
{
    lemma_completion_after_status(events, i, j);
    lemma_status_monotone(events, i, j);
}

/// The final status is set and completion announced in the same step, and
/// only after a flush that went well (on cancellation: and a kill that did).
pub proof fn lemma_flushed_before_final(s: Supervisor, event: Event)
    requires
        s.well_formed(),
        !s.status.is_final(),
        next(s, event).status.is_final(),
    ensures
        next(s, event).completion,
        s.phase is Killing || s.phase is FlushingToReport,
        s.phase is Killing ==> event == (Event::Killed { ok: true }) && next(s, event).status
            == JobStatus::Signal(KILLED_BY),
        s.phase matches Phase::FlushingToReport(status) ==> event == (Event::Flushed { ok: true })
            && next(s, event).status == status,
{
}

/// The output files are there before anything is copied or the job can end:
/// a supervisor that has come past the making of the files without failing
/// was told that both were made, and so was every supervisor that has set a
/// final status.
pub proof fn lemma_files_before_watching(events: Seq<Event>)
    ensures
        run(initial(), events).phase != Phase::Opening && run(initial(), events).phase
            != Phase::Failed ==> exists|i: int|
            0 <= i < events.len() && #[trigger] events[i] == (Event::Opened { ok: true }),
        run(initial(), events).status.is_final() ==> exists|i: int|
            0 <= i < events.len() && #[trigger] events[i] == (Event::Opened { ok: true }),
    decreases events.len(),
{
    lemma_run_well_formed(initial(), events);
    if events.len() > 0 {
        let before = events.drop_last();
        lemma_files_before_watching(before);
        let now = run(initial(), events);
        if now.phase != Phase::Opening && now.phase != Phase::Failed {
            if run(initial(), before).phase == Phase::Opening {
                assert(events[events.len() - 1] == (Event::Opened { ok: true }));
            } else {
                let i = choose|i: int|
                    0 <= i < before.len() && #[trigger] before[i] == (Event::Opened { ok: true });
                assert(events[i] == before[i]);
            }
        }
    }
}

/// A copy that ended, well or not, changes nothing, and the supervisor goes
/// on as before: a failure to capture output does not end a job.
pub proof fn lemma_copy_changes_nothing(s: Supervisor, ok: bool)
    ensures
        step(s, Event::Copied { ok }) == (s, pending(s.phase)),
{
}

/// `k` cancel requests in a row.
pub open spec fn cancel_requests(k: nat) -> Seq<Event> {
    Seq::new(k, |i: int| Event::CancelRequested)
}

/// Any number of cancel requests in a row, one at least, leaves a job where
/// a single request leaves it.
pub proof fn lemma_cancel_idempotent(s: Supervisor, k: nat)
    requires
        k >= 1,
    ensures
        run(s, cancel_requests(k)) == next(s, Event::CancelRequested),
    decreases k,
{
    let requests = cancel_requests(k);
    assert(requests.last() == Event::CancelRequested);
    if k == 1 {
        assert(requests.drop_last() =~= Seq::<Event>::empty());
        assert(run(s, requests.drop_last()) == s);
    } else {
        lemma_cancel_idempotent(s, (k - 1) as nat);
        assert(requests.drop_last() =~= cancel_requests((k - 1) as nat));
        let once = next(s, Event::CancelRequested);
        assert(next(once, Event::CancelRequested) == once);
    }
}

} // verus!
