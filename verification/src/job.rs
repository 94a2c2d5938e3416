//! One job: how it is put together before it runs, and what is known of it
//! while it runs and after.
//!
//! A job is assembled in stages, and the stage is part of its type: a command
//! is added first, then the cgroup, then the ownership, and only a job with
//! all of these and a working directory can be spawned. The cgroup comes
//! before the ownership because the child enters its cgroup while it still
//! may: after it has given up its privileges it could not.

use crate::cells::{
    announce, another_receiver, cancel_signal, completion_watch, glimpse_status, read_status,
    request_cancel, status_cell, write_status,
};
use crate::cgroup::PROC_FILE;
use crate::id::random_id;
use crate::runner::job_status::Outcome;
use crate::runner::JobRequest;
use crate::stack_string;
use crate::supervisor::{step, Action, Event, Supervisor};
use crate::text::{join, signed_decimal};
use crate::Empty;
use std::sync::{Arc, RwLock};
use tokio::sync::watch::{Receiver, Sender};
use tokio::sync::Notify;
use vstd::prelude::*;
use vstd::string::*;

verus! {

/// What can go wrong while a job is put together or started.
#[derive(Clone, Copy, Debug, PartialEq, Eq)]
pub enum Error {
    /// A path did not fit into its fixed buffer.
    STString(stack_string::Error),
    /// The operating system refused; the number is its errno.
    IOError(i32),
}

impl vstd::std_specs::convert::FromSpecImpl<stack_string::Error> for Error {
    open spec fn obeys_from_spec() -> bool {
        true
    }

    open spec fn from_spec(err: stack_string::Error) -> Self {
        Error::STString(err)
    }
}

impl From<stack_string::Error> for Error {
    fn from(err: stack_string::Error) -> (wrapped: Self)
        ensures
            wrapped == Error::STString(err),
    {
        Error::STString(err)
    }
}

/// Where a job stands.
#[derive(Clone, Copy, Debug, PartialEq, Eq, Structural)]
pub enum JobStatus {
    /// The job has not ended, as far as is known.
    Running,
    /// The job exited by itself, with this code.
    Exit(i32),
    /// This signal ended the job.
    Signal(i32),
}

impl Default for JobStatus {
    fn default() -> (status: Self)
        ensures
            status == JobStatus::Running,
    {
        JobStatus::Running
    }
}

/// What is reported of a job with status `status`: no outcome while it runs,
/// else how it ended.
pub open spec fn report(status: JobStatus) -> crate::runner::JobStatus {
    match status {
        JobStatus::Running => crate::runner::JobStatus { outcome: None },
        JobStatus::Exit(code) => crate::runner::JobStatus { outcome: Some(Outcome::ExitCode(code)) },
        JobStatus::Signal(signal) => crate::runner::JobStatus {
            outcome: Some(Outcome::Signal(signal)),
        },
    }
}

impl vstd::std_specs::convert::FromSpecImpl<JobStatus> for crate::runner::JobStatus {
    open spec fn obeys_from_spec() -> bool {
        true
    }

    open spec fn from_spec(value: JobStatus) -> Self {
        report(value)
    }
}

impl From<JobStatus> for crate::runner::JobStatus {
    fn from(value: JobStatus) -> (reported: Self)
        ensures
            reported == report(value),
    {
        match value {
            JobStatus::Running => crate::runner::JobStatus { outcome: None },
            JobStatus::Exit(code) => crate::runner::JobStatus {
                outcome: Some(Outcome::ExitCode(code)),
            },
            JobStatus::Signal(signal) => crate::runner::JobStatus {
                outcome: Some(Outcome::Signal(signal)),
            },
        }
    }
}

/// Whether a look at the status cell shows a job that has ended. A cell that
/// cannot be looked at is being written, and it is written once, at the end:
/// that counts as ended.
pub open spec fn shows_complete(glimpse: Option<JobStatus>) -> bool {
    match glimpse {
        Some(status) => status.is_final(),
        None => true,
    }
}

/// What is reported of a job after a look at its status cell, `glimpse`, and,
/// where that look showed it ended, a full read of the cell, `read`: nothing
/// while the job is in progress or where the read failed, else the outcome
/// that was read.
pub open spec fn report_of(glimpse: Option<JobStatus>, read: Option<JobStatus>)
    -> crate::runner::JobStatus {
    if !shows_complete(glimpse) {
        crate::runner::JobStatus { outcome: None }
    } else {
        match read {
            Some(status) => report(status),
            None => crate::runner::JobStatus { outcome: None },
        }
    }
}

/// A job that is seen to have ended is reported with its outcome, and only
/// such a job is: what is reported has an outcome exactly when the status
/// that was read is a final one, and the look before did not show the job
/// running.
pub proof fn lemma_outcome_when_final(glimpse: Option<JobStatus>, read: Option<JobStatus>)
    ensures
        report_of(glimpse, read).outcome is Some <==> shows_complete(glimpse) && (
        read matches Some(status) && status.is_final()),
        forall|status: JobStatus|
            read == Some(status) && status.is_final() && shows_complete(glimpse) ==> report_of(
                glimpse,
                read,
            ) == #[trigger] report(status),
{
}

/// Whether a look at the status cell shows a job that has ended.
pub fn is_complete_given(glimpse: Option<JobStatus>) -> (complete: bool)
    ensures
        complete == shows_complete(glimpse),
{
    match glimpse {
        Some(JobStatus::Running) => false,
        Some(_) => true,
        None => true,
    }
}

/// What is reported of a job after a look at its status cell and a full
/// read of it. The read counts only where the look showed the job ended.
pub fn status_given(glimpse: Option<JobStatus>, read: Option<JobStatus>) -> (reported:
    crate::runner::JobStatus)
    ensures
        reported == report_of(glimpse, read),
{
    if !is_complete_given(glimpse) {
        crate::runner::JobStatus { outcome: None }
    } else {
        match read {
            Some(status) => status.into(),
            None => crate::runner::JobStatus { outcome: None },
        }
    }
}

/// Where a stream of the child goes.
#[derive(Clone, Copy, Debug, PartialEq, Eq, Structural)]
pub enum Stdio {
    /// Where the runner's own stream goes.
    Inherit,
    /// Into a pipe that the supervisor reads.
    Piped,
}

/// Something the child does to itself after the fork and before the target
/// program starts. Only async-signal-safe work is allowed there, so a hook
/// owns all it needs, in fixed buffers.
#[derive(Clone, Copy, Debug)]
pub enum Hook {
    /// Write the child's own pid, in decimal, into the file at `procs`.
    JoinCgroup { procs: stack_string::String<256> },
    /// Set the group id to `gid`, then the user id to `uid`.
    DropPrivileges { gid: u32, uid: u32 },
}

/// A hook as a plain value.
pub enum HookView {
    JoinCgroup { procs: Seq<u8> },
    DropPrivileges { gid: u32, uid: u32 },
}

impl View for Hook {
    type V = HookView;

    open spec fn view(&self) -> HookView {
        match self {
            Hook::JoinCgroup { procs } => HookView::JoinCgroup { procs: procs@ },
            Hook::DropPrivileges { gid, uid } => HookView::DropPrivileges { gid: *gid, uid: *uid },
        }
    }
}

/// The child process to be: what `exec` will be given, and what comes before.
#[derive(Clone, Debug)]
pub struct Command {
    /// Path of the program.
    pub program: String,
    /// The arguments behind the program's name.
    pub args: Vec<String>,
    pub stdin: Stdio,
    pub stdout: Stdio,
    pub stderr: Stdio,
    /// The working directory; the runner's own where there is none.
    pub current_dir: Option<String>,
    /// The hooks, in the order in which the child runs them.
    pub pre_exec: Vec<Hook>,
}

/// A command as a plain value.
pub struct CommandView {
    pub program: Seq<char>,
    pub args: Seq<Seq<char>>,
    pub stdin: Stdio,
    pub stdout: Stdio,
    pub stderr: Stdio,
    pub current_dir: Option<Seq<char>>,
    pub pre_exec: Seq<HookView>,
}

impl View for Command {
    type V = CommandView;

    open spec fn view(&self) -> CommandView {
        CommandView {
            program: self.program@,
            args: self.args.deep_view(),
            stdin: self.stdin,
            stdout: self.stdout,
            stderr: self.stderr,
            current_dir: match self.current_dir {
                Some(dir) => Some(dir@),
                None => None,
            },
            pre_exec: Seq::new(self.pre_exec@.len(), |i: int| self.pre_exec@[i]@),
        }
    }
}

/// The command for a request: the program and its arguments, both output
/// streams piped, the input inherited, no working directory, no hooks.
pub open spec fn command_for(program: Seq<char>, args: Seq<Seq<char>>) -> CommandView {
    CommandView {
        program,
        args,
        stdin: Stdio::Inherit,
        stdout: Stdio::Piped,
        stderr: Stdio::Piped,
        current_dir: None,
        pre_exec: Seq::empty(),
    }
}

/// The path of the file through which a process joins the cgroup at `dir`.
pub open spec fn procs_path(dir: Seq<char>) -> Seq<char> {
    dir + seq!['/'] + PROC_FILE@
}

impl CommandView {
    /// The command with the working directory `dir`.
    pub open spec fn in_dir(self, dir: Seq<char>) -> CommandView {
        CommandView { current_dir: Some(dir), ..self }
    }

    /// The command with one more hook, run after those it has.
    pub open spec fn followed_by(self, hook: HookView) -> CommandView {
        CommandView { pre_exec: self.pre_exec.push(hook), ..self }
    }
}

/// The pipeline in its order. A command that was given its cgroup, then its
/// ownership, runs exactly two hooks: it joins the cgroup first and drops its
/// privileges second. The working directory may be set at any point and does
/// not touch the hooks.
pub proof fn lemma_cgroup_before_ownership(
    command: CommandView,
    procs: Seq<u8>,
    uid: u32,
    gid: u32,
    dir: Seq<char>,
)
    requires
        command.pre_exec == Seq::<HookView>::empty(),
    ensures
        command.followed_by(HookView::JoinCgroup { procs }).followed_by(
            HookView::DropPrivileges { gid, uid },
        ).pre_exec == seq![HookView::JoinCgroup { procs }, HookView::DropPrivileges { gid, uid }],
        command.in_dir(dir).followed_by(HookView::JoinCgroup { procs }) == command.followed_by(
            HookView::JoinCgroup { procs },
        ).in_dir(dir),
        command.in_dir(dir).followed_by(HookView::DropPrivileges { gid, uid }) == command.followed_by(
            HookView::DropPrivileges { gid, uid },
        ).in_dir(dir),
{
    assert(command.followed_by(HookView::JoinCgroup { procs }).followed_by(
        HookView::DropPrivileges { gid, uid },
    ).pre_exec =~= seq![HookView::JoinCgroup { procs }, HookView::DropPrivileges { gid, uid }]);
}

/// One id that a process gives itself.
#[derive(Clone, Copy, Debug, PartialEq, Eq, Structural)]
pub enum Credential {
    Group(u32),
    User(u32),
}

/// The ids that a child sets to drop its privileges, in the order in which it
/// sets them: the group first. Once the user id is given up, the group id
/// could no longer be changed.
pub fn privilege_drop(gid: u32, uid: u32) -> (steps: [Credential; 2])
    ensures
        steps@ == seq![Credential::Group(gid), Credential::User(uid)],
{
    let steps = [Credential::Group(gid), Credential::User(uid)];
    proof {
        assert(steps@ =~= seq![Credential::Group(gid), Credential::User(uid)]);
    }
    steps
}

/// What a system call's return value means: zero is success, anything else
/// is an error that carries `errno`.
pub fn syscall_result(returned: i32, errno: i32) -> (r: Result<(), Error>)
    ensures
        returned == 0 ==> r is Ok,
        returned != 0 ==> r == Err::<(), Error>(Error::IOError(errno)),
{
    if returned == 0 {
        Ok(())
    } else {
        Err(Error::IOError(errno))
    }
}

/// The pid of the process that asks.
///
/// Trusted: this is nix's `unistd::getpid`, read as a number with
/// `Pid::as_raw`. It is a different number in each process, so nothing is
/// claimed of it.
#[verifier::external_body]
fn own_pid() -> i32 {
    nix::unistd::getpid().as_raw()
}

/// What a process writes into `cgroup.procs` to join a cgroup: its own pid in
/// decimal. No allocation takes place.
pub fn pid_text() -> (text: stack_string::String<11>)
    ensures
        exists|pid: i32| text@ == signed_decimal(pid as int),
{
    let pid = own_pid();
    let text: stack_string::String<11> = stack_string::String::<11>::from(pid);
    assert(text@ == signed_decimal(pid as int));
    text
}

/// One of the three places of a job in assembly: its directory, its
/// ownership, its cgroup. A place is empty until its stage has come.
pub trait Slot {
    /// The path that the place holds, if it holds one.
    spec fn path(&self) -> Option<Seq<char>>;

    /// Whether the place has been filled.
    spec fn filled(&self) -> bool;
}

impl Slot for Empty {
    open spec fn path(&self) -> Option<Seq<char>> {
        None
    }

    open spec fn filled(&self) -> bool {
        false
    }
}

impl Slot for String {
    open spec fn path(&self) -> Option<Seq<char>> {
        Some(self@)
    }

    open spec fn filled(&self) -> bool {
        true
    }
}

impl Slot for Initialized {
    open spec fn path(&self) -> Option<Seq<char>> {
        None
    }

    open spec fn filled(&self) -> bool {
        true
    }
}

/// What a job is at one stage of its life.
pub trait Stage {
    /// Whether the parts of the stage agree with each other. Every job is
    /// coherent, at every stage.
    spec fn coherent(&self) -> bool;
}

impl Stage for Empty {
    open spec fn coherent(&self) -> bool {
        true
    }
}

impl Stage for Started {
    open spec fn coherent(&self) -> bool {
        true
    }
}

/// A job in assembly: the command, and the places for its directory, its
/// ownership and its cgroup. The command's output is piped; its working
/// directory is the one in the first place; it has one hook for each of the
/// other two places that is filled, the one that joins the cgroup first; and
/// the ownership is not there before the cgroup.
impl<P: Slot, O: Slot, C: Slot> Stage for (Command, P, O, C) {
    open spec fn coherent(&self) -> bool {
        let command = self.0@;
        &&& command.stdin == Stdio::Inherit
        &&& command.stdout == Stdio::Piped
        &&& command.stderr == Stdio::Piped
        &&& command.current_dir == self.1.path()
        &&& self.2.filled() ==> self.3.filled()
        &&& command.pre_exec.len() == (if self.3.filled() {
            1nat
        } else {
            0nat
        }) + (if self.2.filled() {
            1nat
        } else {
            0nat
        })
        &&& self.3.path() matches Some(dir) ==> command.pre_exec[0] == (HookView::JoinCgroup {
            procs: vstd::utf8::encode_utf8(procs_path(dir)),
        })
        &&& self.2.filled() ==> command.pre_exec[1] is DropPrivileges
    }
}

/// A job at some stage `S` of its life.
#[derive(Debug)]
pub struct Job<S: Stage> {
    id: u128,
    cancel: Arc<Notify>,
    status: Arc<RwLock<JobStatus>>,
    state: S,
}

/// The stage of a job that runs or has run.
#[derive(Debug)]
pub struct Started {
    cgroup_dir: String,
    job_dir: String,
    completion: Receiver<bool>,
}

/// Marks a job whose child will drop its privileges.
#[derive(Debug)]
pub struct Initialized;

impl<S: Stage> Job<S> {
    #[verifier::type_invariant]
    spec fn coherent(self) -> bool {
        self.state.coherent()
    }

    /// The job's id.
    pub closed spec fn spec_id(&self) -> u128 {
        self.id
    }

    /// The job's id.
    #[verifier::when_used_as_spec(spec_id)]
    pub fn id(&self) -> (id: u128)
        ensures
            id == self.id(),
    {
        self.id
    }

    /// What the job has at this stage.
    pub closed spec fn state(&self) -> S {
        self.state
    }

    /// The cell that holds the job's status.
    pub closed spec fn status_cell(&self) -> Arc<RwLock<JobStatus>> {
        self.status
    }

    /// The signal through which the job is asked to end.
    pub closed spec fn cancel_cell(&self) -> Arc<Notify> {
        self.cancel
    }

    /// Whether `other` is the same job at another stage: it has the same id
    /// and shares the status cell and the cancel signal.
    pub open spec fn continues<T: Stage>(&self, other: &Job<T>) -> bool {
        &&& self.id() == other.id()
        &&& self.status_cell() == other.status_cell()
        &&& self.cancel_cell() == other.cancel_cell()
    }
}

impl Default for Job<Empty> {
    /// A job with a new id, a cancel signal that nobody has used, and the
    /// status `Running`.
    fn default() -> Self {
        let id = random_id();
        let cancel = Arc::new(cancel_signal());
        let status = Arc::new(status_cell(JobStatus::default()));
        Self { id, cancel, status, state: Empty }
    }
}

impl Job<Empty> {
    /// Gives the job its command: the request's program and arguments, with
    /// both output streams piped.
    pub fn add_command(self, job_request: &JobRequest) -> (job: Job<(Command, Empty, Empty, Empty)>)
        ensures
            job.continues(&self),
            job.state().0@ == command_for(job_request.executable@, job_request.args.deep_view()),
    {
        let Job { id, cancel, status, state: _ } = self;
        let mut args: Vec<String> = Vec::new();
        let mut i: usize = 0;
        while i < job_request.args.len()
            invariant
                0 <= i <= job_request.args@.len(),
                args@.len() == i,
                forall|j: int| 0 <= j < i ==> args@[j]@ == job_request.args@[j]@,
            decreases job_request.args@.len() - i,
        {
            args.push(job_request.args[i].clone());
            i = i + 1;
        }
        let handle = Command {
            program: job_request.executable.clone(),
            args,
            stdin: Stdio::Inherit,
            stdout: Stdio::Piped,
            stderr: Stdio::Piped,
            current_dir: None,
            pre_exec: Vec::new(),
        };
        proof {
            assert(handle.args.deep_view() =~= job_request.args.deep_view());
            assert(handle@.pre_exec =~= Seq::<HookView>::empty());
        }
        Job { id, cancel, status, state: (handle, Empty, Empty, Empty) }
    }
}

impl<P: Slot, O: Slot, C: Slot> Job<(Command, P, O, C)> {
    /// Sets the directory in which the child starts.
    pub fn set_job_dir(self, job_dir: String) -> (job: Job<(Command, String, O, C)>)
        ensures
            job.continues(&self),
            job.state().0@ == self.state().0@.in_dir(job_dir@),
            job.state().1 == job_dir,
            job.state().2 == self.state().2,
            job.state().3 == self.state().3,
    {
        proof {
            use_type_invariant(&self);
        }
        let Job { id, cancel, status, state } = self;
        let (mut cmd, _, ownership, cgroup) = state;
        cmd.current_dir = Some(job_dir.clone());
        Job { id, cancel, status, state: (cmd, job_dir, ownership, cgroup) }
    }
}

impl<P: Slot> Job<(Command, P, Empty, Empty)> {
    /// Gives the job its cgroup: the child will write its pid into
    /// `cgroup.procs` under `cgroup_path` before anything else. The file's
    /// path has to fit into 256 bytes; a longer one is refused with its
    /// length.
    pub fn add_to_cgroup(self, cgroup_path: String) -> (r: Result<
        Job<(Command, P, Empty, String)>,
        Error,
    >)
        ensures
            r is Ok <==> vstd::utf8::encode_utf8(procs_path(cgroup_path@)).len() <= 256,
            r matches Ok(job) ==> {
                &&& job.continues(&self)
                &&& job.state().0@ == self.state().0@.followed_by(
                    HookView::JoinCgroup {
                        procs: vstd::utf8::encode_utf8(procs_path(cgroup_path@)),
                    },
                )
                &&& job.state().1 == self.state().1
                &&& job.state().3 == cgroup_path
            },
            r matches Err(err) ==> err == Error::STString(
                stack_string::Error::InvalidBufSize(
                    vstd::utf8::encode_utf8(procs_path(cgroup_path@)).len() as usize,
                    256,
                ),
            ),
    {
        proof {
            use_type_invariant(&self);
        }
        let Job { id, cancel, status, state } = self;
        let (mut cmd, job_dir, _, _) = state;
        let procs = join(cgroup_path.as_str(), PROC_FILE);
        let cgroup_procs = match stack_string::String::<256>::try_from(procs.as_str()) {
            Ok(cgroup_procs) => cgroup_procs,
            Err(err) => {
                return Err(Error::STString(err));
            },
        };
        let ghost before = cmd@;
        cmd.pre_exec.push(Hook::JoinCgroup { procs: cgroup_procs });
        proof {
            assert(cmd@.pre_exec =~= before.pre_exec.push(
                HookView::JoinCgroup { procs: cgroup_procs@ },
            ));
        }
        Ok(Job { id, cancel, status, state: (cmd, job_dir, Empty, cgroup_path) })
    }
}

impl<P: Slot> Job<(Command, P, Empty, String)> {
    /// Gives the job its owner: the child will set its group id to `gid` and
    /// then its user id to `uid`, after it has joined its cgroup.
    pub fn set_ownership(self, uid: u32, gid: u32) -> (job: Job<
        (Command, P, Initialized, String),
    >)
        ensures
            job.continues(&self),
            job.state().0@ == self.state().0@.followed_by(HookView::DropPrivileges { gid, uid }),
            job.state().1 == self.state().1,
            job.state().3 == self.state().3,
    {
        proof {
            use_type_invariant(&self);
        }
        let Job { id, cancel, status, state } = self;
        let (mut cmd, job_dir, _, cgroup) = state;
        let ghost before = cmd@;
        cmd.pre_exec.push(Hook::DropPrivileges { gid, uid });
        proof {
            assert(cmd@.pre_exec =~= before.pre_exec.push(HookView::DropPrivileges { gid, uid }));
        }
        Job { id, cancel, status, state: (cmd, job_dir, Initialized, cgroup) }
    }
}

/// The supervisor of a spawned job, with the cells through which it tells
/// the world: it alone writes the status cell and the completion watch.
#[derive(Debug)]
pub struct Monitor {
    supervisor: Supervisor,
    cancel: Arc<Notify>,
    status: Arc<RwLock<JobStatus>>,
    completion: Sender<bool>,
    unheard: bool,
}

impl Monitor {
    #[verifier::type_invariant]
    spec fn well_formed(self) -> bool {
        &&& self.supervisor.well_formed()
        &&& self.unheard ==> self.supervisor.completion
    }

    /// Where the supervisor stands.
    pub closed spec fn spec_supervisor(&self) -> Supervisor {
        self.supervisor
    }

    /// The cell into which the supervisor writes the job's final status.
    pub closed spec fn status_cell(&self) -> Arc<RwLock<JobStatus>> {
        self.status
    }

    /// The signal on which the supervisor waits for a cancel request.
    pub closed spec fn cancel_cell(&self) -> Arc<Notify> {
        self.cancel
    }

    /// Whether completion was announced and nobody was left to hear it. The
    /// flag is noted in the step that ends the job, from what the watch says
    /// of the announcement, and stays as it is noted.
    pub closed spec fn went_unheard(&self) -> bool {
        self.unheard
    }

    /// Where the supervisor stands.
    #[verifier::when_used_as_spec(spec_supervisor)]
    pub fn supervisor(&self) -> (supervisor: Supervisor)
        ensures
            supervisor == self.supervisor(),
            supervisor.well_formed(),
    {
        proof {
            use_type_invariant(self);
        }
        self.supervisor
    }

    /// What the supervisor waits to be done. For a new supervisor this is
    /// the first thing to do.
    pub fn pending(&self) -> (action: Action)
        ensures
            action == crate::supervisor::pending(self.supervisor().phase),
    {
        self.supervisor.pending()
    }

    /// The signal on which the supervisor waits for a cancel request.
    pub fn cancel_signal(&self) -> (signal: &Notify)
        ensures
            *signal == *self.cancel_cell(),
    {
        &self.cancel
    }

    /// Takes in `event` and says what to do next. On the step that ends the
    /// job, the final status is put into the status cell first and completion
    /// is announced on the watch second; no other step touches either.
    pub fn handle(&mut self, event: Event) -> (action: Action)
        ensures
            (final(self).supervisor(), action) == step(old(self).supervisor(), event),
            final(self).status_cell() == old(self).status_cell(),
            final(self).cancel_cell() == old(self).cancel_cell(),
            final(self).went_unheard() ==> final(self).supervisor().completion,
            final(self).supervisor().completion == old(self).supervisor().completion
                ==> final(self).went_unheard() == old(self).went_unheard(),
    {
        proof {
            use_type_invariant(&*self);
        }
        let was_complete = self.supervisor.completion;
        let mut supervisor = self.supervisor;
        let action = supervisor.handle(event);
        self.supervisor = supervisor;
        if supervisor.completion && !was_complete {
            write_status(&self.status, supervisor.status);
            let heard = announce(&self.completion, true);
            self.unheard = !heard;
        }
        action
    }

    /// Whether completion was announced and nobody was left to hear it. That
    /// is worth a line in a log and changes nothing else.
    #[verifier::when_used_as_spec(went_unheard)]
    pub fn unheard(&self) -> (unheard: bool)
        ensures
            unheard == self.went_unheard(),
            unheard ==> self.supervisor().completion,
    {
        proof {
            use_type_invariant(self);
        }
        self.unheard
    }
}

/// All that is needed to start a job's child and to supervise it.
#[derive(Debug)]
pub struct Launch {
    /// The child to spawn.
    pub command: Command,
    /// The file that takes the child's standard output.
    pub out_file: String,
    /// The file that takes the child's standard error.
    pub err_file: String,
    /// The supervisor, in its first state.
    pub monitor: Monitor,
}

/// The path of the file `out` in a job's directory.
pub open spec fn out_path(job_dir: Seq<char>) -> Seq<char> {
    job_dir + seq!['/'] + "out"@
}

/// The path of the file `err` in a job's directory.
pub open spec fn err_path(job_dir: Seq<char>) -> Seq<char> {
    job_dir + seq!['/'] + "err"@
}

impl Job<(Command, String, Initialized, String)> {
    /// Turns the job into a started one and hands out what its start takes:
    /// the command as it was assembled, the two output files in the job's
    /// directory, and a supervisor that has seen nothing yet. Whoever holds
    /// the [`Launch`] spawns the child and runs the supervisor.
    pub fn spawn(self) -> (started: (Job<Started>, Launch))
        ensures
            started.0.continues(&self),
            started.1.monitor.status_cell() == self.status_cell(),
            started.1.monitor.cancel_cell() == self.cancel_cell(),
            started.0.spec_job_dir() == self.state().1@,
            started.0.spec_cgroup_dir() == self.state().3@,
            started.1.command == self.state().0,
            started.1.command@.stdin == Stdio::Inherit,
            started.1.command@.stdout == Stdio::Piped,
            started.1.command@.stderr == Stdio::Piped,
            started.1.command@.current_dir == Some(self.state().1@),
            started.1.command@.pre_exec.len() == 2,
            started.1.command@.pre_exec[0] == (HookView::JoinCgroup {
                procs: vstd::utf8::encode_utf8(procs_path(self.state().3@)),
            }),
            started.1.command@.pre_exec[1] is DropPrivileges,
            started.1.out_file@ == out_path(self.state().1@),
            started.1.err_file@ == err_path(self.state().1@),
            started.1.monitor.supervisor() == crate::supervisor::initial(),
            !started.1.monitor.went_unheard(),
    {
        proof {
            use_type_invariant(&self);
        }
        let Job { id, cancel, status, state } = self;
        let (command, job_dir, _, cgroup_dir) = state;
        let out_file = join(job_dir.as_str(), "out");
        let err_file = join(job_dir.as_str(), "err");
        let (tx, rx) = completion_watch(false);
        let monitor = Monitor {
            supervisor: Supervisor::new(),
            cancel: cancel.clone(),
            status: status.clone(),
            completion: tx,
            unheard: false,
        };
        let launch = Launch { command, out_file, err_file, monitor };
        let job = Job { id, cancel, status, state: Started { cgroup_dir, job_dir, completion: rx } };
        (job, launch)
    }
}

impl Job<Started> {
    /// The job's directory, which holds its output files.
    pub closed spec fn spec_job_dir(&self) -> Seq<char> {
        self.state.job_dir@
    }

    /// The job's cgroup.
    pub closed spec fn spec_cgroup_dir(&self) -> Seq<char> {
        self.state.cgroup_dir@
    }

    /// The receiving end of the completion watch that the job holds.
    pub closed spec fn completion(&self) -> Receiver<bool> {
        self.state.completion
    }

    /// The job's directory, which holds its output files.
    pub fn job_dir(&self) -> (dir: &str)
        ensures
            dir@ == self.spec_job_dir(),
    {
        self.state.job_dir.as_str()
    }

    /// The job's cgroup.
    pub fn cgroup_dir(&self) -> (dir: &str)
        ensures
            dir@ == self.spec_cgroup_dir(),
    {
        self.state.cgroup_dir.as_str()
    }

    /// A receiver of the job's completion watch: a duplicate of the one that
    /// the job holds. It reads `false` until the supervisor has set the final
    /// status, and `true` from then on.
    pub fn subscribe(&self) -> (receiver: Receiver<bool>)
        ensures
            receiver == self.completion(),
    {
        another_receiver(&self.state.completion)
    }

    /// Asks the supervisor to end the job. Asking again before the supervisor
    /// has taken notice changes nothing: the signal keeps one request.
    pub fn cancel(&self) {
        request_cancel(&self.cancel)
    }

    /// What is known of the job's end: nothing while it is in progress, its
    /// outcome once it is complete.
    pub fn status(&self) -> (reported: crate::runner::JobStatus)
        ensures
            exists|glimpse: Option<JobStatus>, read: Option<JobStatus>|
                reported == report_of(glimpse, read),
    {
        let glimpse = glimpse_status(&self.status);
        let read = if is_complete_given(glimpse) {
            read_status(&self.status)
        } else {
            None
        };
        status_given(glimpse, read)
    }

    /// Whether the job has ended, as far as one look at its status cell
    /// tells.
    pub fn is_complete(&self) -> (complete: bool)
        ensures
            exists|glimpse: Option<JobStatus>| complete == shows_complete(glimpse),
    {
        let glimpse = glimpse_status(&self.status);
        let complete = is_complete_given(glimpse);
        assert(complete == shows_complete(glimpse));
        complete
    }
}

} // verus!
