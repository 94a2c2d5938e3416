//! One client's controller: the client's account and cgroup, its jobs, and
//! what is done for each request about them.

use crate::cgroup::{
    cpu_writes, covers, file_in, io_writes, mem_writes, prefixed, refused_weight, FileWrite,
    SUBTREE_CONTROL,
};
use crate::id::{path_segment, simple};
use crate::job::{
    command_for, err_path, out_path, procs_path, Command, HookView, Initialized, Job, Started,
};
use crate::runner::{Ack, JobRequest, LogMessage};
use crate::stack_string;
use crate::text::join;
use crate::{Empty, BASE_CG_PATH, BASE_PATH};
use std::collections::HashMap;
use tokio::sync::watch::Receiver;
use vstd::prelude::*;
use vstd::slice::slice_subrange;
use vstd::slice::slice_to_vec;
use vstd::string::*;
use vstd::utf8::encode_utf8;

verus! {

broadcast use vstd::std_specs::hash::group_hash_axioms;

/// One of a job's two output streams.
#[derive(Clone, Copy, Debug, PartialEq, Eq, Structural)]
pub enum Fd {
    /// Standard output.
    Out,
    /// Standard error.
    Error,
}

/// The number under which a stream's output is sent.
pub open spec fn fd_number(fd: Fd) -> i32 {
    match fd {
        Fd::Out => 0,
        Fd::Error => 1,
    }
}

impl vstd::std_specs::convert::FromSpecImpl<Fd> for i32 {
    open spec fn obeys_from_spec() -> bool {
        true
    }

    open spec fn from_spec(fd: Fd) -> i32 {
        fd_number(fd)
    }
}

impl From<Fd> for i32 {
    fn from(fd: Fd) -> (number: i32)
        ensures
            number == fd_number(fd),
    {
        match fd {
            Fd::Out => 0,
            Fd::Error => 1,
        }
    }
}

/// What a controller can fail with.
#[derive(Clone, Debug, PartialEq, Eq)]
pub enum Error {
    /// The client's name holds a NUL byte, at this position, and so cannot be
    /// the name of an account.
    CStringError(usize),
    /// The operating system refused; the number is its errno.
    IOError(i32),
    /// A number did not fit where it had to go.
    Conversion,
    /// The job could not be put together.
    JobError(crate::job::Error),
    /// The client has no job with this id.
    JobNotFound(u128),
    /// The cgroup refused.
    Cgroup(crate::cgroup::Error),
}

impl vstd::std_specs::convert::FromSpecImpl<crate::job::Error> for Error {
    open spec fn obeys_from_spec() -> bool {
        true
    }

    open spec fn from_spec(err: crate::job::Error) -> Self {
        Error::JobError(err)
    }
}

impl From<crate::job::Error> for Error {
    fn from(err: crate::job::Error) -> (wrapped: Self)
        ensures
            wrapped == Error::JobError(err),
    {
        Error::JobError(err)
    }
}

impl vstd::std_specs::convert::FromSpecImpl<crate::cgroup::Error> for Error {
    open spec fn obeys_from_spec() -> bool {
        true
    }

    open spec fn from_spec(err: crate::cgroup::Error) -> Self {
        Error::Cgroup(err)
    }
}

impl From<crate::cgroup::Error> for Error {
    fn from(err: crate::cgroup::Error) -> (wrapped: Self)
        ensures
            wrapped == Error::Cgroup(err),
    {
        Error::Cgroup(err)
    }
}

/// How many messages may wait for a slow reader of a job's output.
pub const CHANNEL_CAPACITY: usize = 20;

/// How many bytes of a file one message carries at most.
pub const CHUNK: usize = 512;

/// The directory of a client's jobs.
pub open spec fn client_dir(client: Seq<char>) -> Seq<char> {
    BASE_PATH@ + seq!['/'] + client
}

/// The cgroup of a client.
pub open spec fn client_cgroup(client: Seq<char>) -> Seq<char> {
    BASE_CG_PATH@ + seq!['/'] + client
}

/// The directory of one job of a client.
pub open spec fn job_dir(client: Seq<char>, id: u128) -> Seq<char> {
    client_dir(client) + seq!['/'] + simple(id)
}

/// The cgroup of one job of a client.
pub open spec fn job_cgroup(client: Seq<char>, id: u128) -> Seq<char> {
    client_cgroup(client) + seq!['/'] + simple(id)
}

/// The position of the first zero among `bytes`, if there is one.
pub open spec fn first_nul(bytes: Seq<u8>) -> Option<usize> {
    if exists|i: int| 0 <= i < bytes.len() && bytes[i] == 0u8 {
        Some(
            (choose|i: int|
                0 <= i < bytes.len() && bytes[i] == 0u8 && forall|j: int|
                    0 <= j < i ==> bytes[j] != 0u8) as usize,
        )
    } else {
        None
    }
}

/// The position of the first NUL byte in `client`, if it has one.
pub fn nul_position(client: &str) -> (position: Option<usize>)
    ensures
        position == first_nul(client.spec_bytes()),
        position matches Some(p) ==> p < client.spec_bytes().len() && client.spec_bytes()[p as int]
            == 0u8,
{
    let bytes = client.as_bytes();
    let mut i: usize = 0;
    while i < bytes.len()
        invariant
            0 <= i <= bytes@.len(),
            bytes@ == client.spec_bytes(),
            forall|j: int| 0 <= j < i ==> bytes@[j] != 0u8,
        decreases bytes@.len() - i,
    {
        if bytes[i] == 0 {
            proof {
                let found = choose|k: int|
                    0 <= k < bytes@.len() && bytes@[k] == 0u8 && forall|j: int|
                        0 <= j < k ==> bytes@[j] != 0u8;
                assert(0 <= i < bytes@.len() && bytes@[i as int] == 0u8 && forall|j: int|
                    0 <= j < i ==> bytes@[j] != 0u8);
                if found < i {
                    assert(bytes@[found] != 0u8);
                }
                if i < found {
                    assert(bytes@[i as int] != 0u8);
                }
            }
            return Some(i);
        }
        i = i + 1;
    }
    None
}

/// What the controller has learnt about the client's account.
#[derive(Clone, Copy, Debug, PartialEq, Eq)]
pub enum AccountEvent {
    /// Nothing yet.
    Start,
    /// The account exists, with these ids.
    Found { uid: u32, gid: u32 },
    /// There is no such account; `errno` is what the lookup left.
    Missing { errno: i32 },
    /// The program that adds accounts was run.
    UserAdded,
    /// The program that adds accounts could not be run.
    UserAddFailed { errno: i32 },
}

/// What to do next about the client's account.
#[derive(Clone, Copy, Debug, PartialEq, Eq)]
pub enum AccountStep {
    /// Look the account up by the client's name.
    Lookup,
    /// Run `useradd` with [`useradd_args`], and wait for it.
    AddUser,
    /// The account is there; these are its ids.
    Resolved { uid: u32, gid: u32 },
}

/// How far the search for the client's account has come.
#[derive(Clone, Copy, Debug, PartialEq, Eq)]
pub struct Account {
    /// Whether the account was already asked to be added.
    pub added: bool,
}

/// What follows an event in the search for a client's account. The name is
/// checked at the start; an account that is missing is added once and looked
/// up again; one that is still missing then is given up.
pub open spec fn account_step(client: Seq<u8>, state: Account, event: AccountEvent) -> Result<
    (Account, AccountStep),
    Error,
> {
    match event {
        AccountEvent::Start => match first_nul(client) {
            Some(position) => Err(Error::CStringError(position)),
            None => Ok((state, AccountStep::Lookup)),
        },
        AccountEvent::Found { uid, gid } => Ok((state, AccountStep::Resolved { uid, gid })),
        AccountEvent::Missing { errno } => if state.added {
            Err(Error::IOError(errno))
        } else {
            Ok((Account { added: true }, AccountStep::AddUser))
        },
        AccountEvent::UserAdded => Ok((state, AccountStep::Lookup)),
        AccountEvent::UserAddFailed { errno } => Err(Error::IOError(errno)),
    }
}

/// Decides the next step towards the uid and gid of `client`'s account.
/// Begin with `Account { added: false }` and [`AccountEvent::Start`]; do what
/// comes back and hand in what came of it, until the step is `Resolved` or an
/// error.
pub fn ensure_uid_gid(client: &str, state: Account, event: AccountEvent) -> (r: Result<
    (Account, AccountStep),
    Error,
>)
    ensures
        r == account_step(client.spec_bytes(), state, event),
{
    match event {
        AccountEvent::Start => match nul_position(client) {
            Some(position) => Err(Error::CStringError(position)),
            None => Ok((state, AccountStep::Lookup)),
        },
        AccountEvent::Found { uid, gid } => Ok((state, AccountStep::Resolved { uid, gid })),
        AccountEvent::Missing { errno } => if state.added {
            Err(Error::IOError(errno))
        } else {
            Ok((Account { added: true }, AccountStep::AddUser))
        },
        AccountEvent::UserAdded => Ok((state, AccountStep::Lookup)),
        AccountEvent::UserAddFailed { errno } => Err(Error::IOError(errno)),
    }
}

/// An account is asked to be added at most once: whatever the events, a
/// search that has asked for it never asks again.
pub proof fn lemma_account_added_once(client: Seq<u8>, state: Account, event: AccountEvent)
    requires
        state.added,
    ensures
        account_step(client, state, event) matches Ok((next, step)) ==> next.added && step
            != AccountStep::AddUser,
{
}

/// The arguments with which `useradd` makes the account of `client`: no
/// login shell, and a group of the same name.
pub fn useradd_args(client: &str) -> (args: Vec<String>)
    ensures
        args.deep_view() == seq!["-s"@, "/sbin/nologin"@, "-U"@, client@],
{
    let mut args: Vec<String> = Vec::new();
    args.push("-s".to_owned());
    args.push("/sbin/nologin".to_owned());
    args.push("-U".to_owned());
    args.push(client.to_owned());
    proof {
        assert(args.deep_view() =~= seq!["-s"@, "/sbin/nologin"@, "-U"@, client@]);
    }
    args
}

/// What a reader of one output file has learnt.
#[derive(Clone, Copy, Debug, PartialEq, Eq)]
pub enum ReadEvent {
    /// The completion watch has changed, or its sender is gone.
    Completed,
    /// A read returned this many bytes; none at the file's end.
    Read { bytes_read: usize },
    /// A read failed.
    ReadFailed,
    /// The message could not be sent: the receiver is gone.
    SendFailed,
}

/// What a reader does next.
#[derive(Clone, Copy, Debug, PartialEq, Eq)]
pub enum ReadAction {
    /// Read again; while the job runs, also wait for the completion watch.
    Continue,
    /// Send the bytes just read, made into a message by
    /// [`LogReader::message`], then read again.
    Send,
    /// Stop reading and drop the sending end.
    Close,
}

/// A reader of one output file of a job. One that starts after the job has
/// ended reads the file once, to its end. One that starts while the job runs
/// reads on at the file's end, and stops at the first end it meets after the
/// job has completed.
#[derive(Clone, Debug, PartialEq, Eq)]
pub struct LogReader {
    /// The stream whose file is read.
    pub fd: Fd,
    /// The file.
    pub path: String,
    /// Whether the job is known to have completed: the next end of file is
    /// the last.
    pub done: bool,
    /// Whether the reader has stopped.
    pub closed: bool,
}

/// Whether the reader goes on after `event`, and with which flags.
pub open spec fn reader_step(done: bool, closed: bool, event: ReadEvent) -> (bool, bool, ReadAction) {
    if closed {
        (done, true, ReadAction::Close)
    } else {
        match event {
            ReadEvent::Completed => (true, false, ReadAction::Continue),
            ReadEvent::Read { bytes_read } => if bytes_read > 0 {
                (done, false, ReadAction::Send)
            } else if done {
                (done, true, ReadAction::Close)
            } else {
                (done, false, ReadAction::Continue)
            },
            ReadEvent::ReadFailed => (done, true, ReadAction::Close),
            ReadEvent::SendFailed => (done, true, ReadAction::Close),
        }
    }
}

impl LogReader {
    /// Takes in `event` and says what to do next.
    pub fn handle(&mut self, event: ReadEvent) -> (action: ReadAction)
        ensures
            (final(self).done, final(self).closed, action) == reader_step(
                old(self).done,
                old(self).closed,
                event,
            ),
            final(self).fd == old(self).fd,
            final(self).path == old(self).path,
    {
        if self.closed {
            return ReadAction::Close;
        }
        match event {
            ReadEvent::Completed => {
                self.done = true;
                ReadAction::Continue
            },
            ReadEvent::Read { bytes_read } => if bytes_read > 0 {
                ReadAction::Send
            } else if self.done {
                self.closed = true;
                ReadAction::Close
            } else {
                ReadAction::Continue
            },
            ReadEvent::ReadFailed => {
                self.closed = true;
                ReadAction::Close
            },
            ReadEvent::SendFailed => {
                self.closed = true;
                ReadAction::Close
            },
        }
    }

    /// The message for the first `bytes_read` bytes of `buffer`.
    pub fn message(&self, buffer: &[u8], bytes_read: usize) -> (message: LogMessage)
        requires
            bytes_read <= buffer@.len(),
        ensures
            message.fd == fd_number(self.fd),
            message.output@ == buffer@.subrange(0, bytes_read as int),
    {
        LogMessage { fd: self.fd.into(), output: slice_to_vec(slice_subrange(buffer, 0, bytes_read)) }
    }

    /// The message for the first `bytes_read` bytes of `buffer`, or none
    /// where the buffer does not hold that many.
    pub fn message_checked(&self, buffer: &[u8], bytes_read: usize) -> (message: Option<LogMessage>)
        ensures
            message is Some <==> bytes_read <= buffer@.len(),
            message matches Some(message) ==> message.fd == fd_number(self.fd) && message.output@
                == buffer@.subrange(0, bytes_read as int),
    {
        if bytes_read <= buffer.len() {
            Some(self.message(buffer, bytes_read))
        } else {
            None
        }
    }
}

/// A reader is done with a file that nobody writes any more: once the job has
/// completed, the first read that returns nothing closes the reader, and a
/// reader that has closed stays closed.
pub proof fn lemma_reader_closes(done: bool, closed: bool, event: ReadEvent)
    ensures
        closed ==> reader_step(done, closed, event) == (done, true, ReadAction::Close),
        !closed && done && event == (ReadEvent::Read { bytes_read: 0 }) ==> reader_step(
            done,
            closed,
            event,
        ).2 == ReadAction::Close,
        !closed && !done && event == (ReadEvent::Read { bytes_read: 0 }) ==> reader_step(
            done,
            closed,
            event,
        ) == (false, false, ReadAction::Continue),
        reader_step(done, closed, event).2 == ReadAction::Send <==> !closed && (
        event matches ReadEvent::Read { bytes_read } && bytes_read > 0),
        done ==> reader_step(done, closed, event).0,
{
}

/// The reads that return `sizes`, one after the other.
pub open spec fn reads(sizes: Seq<usize>) -> Seq<ReadEvent> {
    Seq::new(sizes.len(), |i: int| ReadEvent::Read { bytes_read: sizes[i] })
}

/// Where a reader stands after `events`, and what it did on each of them.
pub open spec fn reader_run(done: bool, closed: bool, events: Seq<ReadEvent>) -> (
    bool,
    bool,
    Seq<ReadAction>,
)
    decreases events.len(),
{
    if events.len() == 0 {
        (done, closed, Seq::empty())
    } else {
        let before = reader_run(done, closed, events.drop_last());
        let last = reader_step(before.0, before.1, events.last());
        (last.0, last.1, before.2.push(last.2))
    }
}

/// A reader sends each piece of a file as it is read, in the order of the
/// reads: over reads that all return something, every action is `Send`, and
/// the reader is still open after them.
pub proof fn lemma_reader_sends_in_order(done: bool, sizes: Seq<usize>)
    requires
        forall|i: int| 0 <= i < sizes.len() ==> sizes[i] > 0,
    ensures
        reader_run(done, false, reads(sizes)) == (
            done,
            false,
            Seq::new(sizes.len(), |i: int| ReadAction::Send),
        ),
    decreases sizes.len(),
{
    let events = reads(sizes);
    if sizes.len() > 0 {
        lemma_reader_sends_in_order(done, sizes.drop_last());
        assert(events.drop_last() =~= reads(sizes.drop_last()));
        assert(events.last() == ReadEvent::Read { bytes_read: sizes.last() });
        assert(reader_run(done, false, events).2 =~= Seq::new(
            sizes.len(),
            |i: int| ReadAction::Send,
        ));
    } else {
        assert(reader_run(done, false, events).2 =~= Seq::new(
            sizes.len(),
            |i: int| ReadAction::Send,
        ));
    }
}

/// A reader of a completed job's file reads the file once: it sends every
/// piece up to the file's end, closes there, and sends nothing after,
/// whatever else it is told.
pub proof fn lemma_replay_reads_once(sizes: Seq<usize>, later: Seq<ReadEvent>)
    requires
        forall|i: int| 0 <= i < sizes.len() ==> sizes[i] > 0,
    ensures
        reader_run(true, false, reads(sizes.push(0))) == (
            true,
            true,
            Seq::new(sizes.len(), |i: int| ReadAction::Send).push(ReadAction::Close),
        ),
        reader_run(true, true, later) == (
            true,
            true,
            Seq::new(later.len(), |i: int| ReadAction::Close),
        ),
    decreases later.len(),
{
    lemma_reader_sends_in_order(true, sizes);
    let events = reads(sizes.push(0));
    assert(events.drop_last() =~= reads(sizes));
    assert(events.last() == ReadEvent::Read { bytes_read: 0 });
    if later.len() > 0 {
        lemma_replay_reads_once(sizes, later.drop_last());
    }
    assert(reader_run(true, true, later).2 =~= Seq::new(later.len(), |i: int| ReadAction::Close));
}

/// What it takes to stream a job's output: a reader for each of its two
/// files, and how many messages may wait in the channel to the subscriber.
#[derive(Debug)]
pub struct Output {
    /// The reader of the job's standard output.
    pub out: LogReader,
    /// The reader of the job's standard error.
    pub err: LogReader,
    /// A receiver of the job's completion watch, for a job that still runs.
    pub completion: Option<Receiver<bool>>,
    /// The capacity of the channel to the subscriber.
    pub capacity: usize,
}

/// One thing to do to the filesystem before a job is spawned.
#[derive(Clone, Debug, PartialEq, Eq)]
pub enum Setup {
    /// Make the directory at this path, and those above it that are missing.
    /// A directory that is there already is left as it is.
    MakeDir(String),
    /// Write a file.
    Write(FileWrite),
}

/// A setup step as a plain value.
pub enum SetupView {
    MakeDir(Seq<char>),
    Write(Seq<char>, Seq<char>),
}

impl DeepView for Setup {
    type V = SetupView;

    open spec fn deep_view(&self) -> SetupView {
        match self {
            Setup::MakeDir(path) => SetupView::MakeDir(path@),
            Setup::Write(write) => SetupView::Write(write.path@, write.contents@),
        }
    }
}

/// What is done before a job is spawned, in its order: the job's directory
/// is made, then its cgroup, then the limits are written into the cgroup.
pub open spec fn setup_for(
    job_dir: Seq<char>,
    cgroup_dir: Seq<char>,
    writes: Seq<(Seq<char>, Seq<char>)>,
) -> Seq<SetupView> {
    seq![SetupView::MakeDir(job_dir), SetupView::MakeDir(cgroup_dir)] + Seq::new(
        writes.len(),
        |i: int| SetupView::Write(writes[i].0, writes[i].1),
    )
}

/// What it takes to start a job: what to do to the filesystem first, and the
/// job, ready to be spawned.
#[derive(Debug)]
pub struct Prepared {
    /// The job's directory.
    pub job_dir: String,
    /// The job's cgroup.
    pub cgroup_dir: String,
    /// What to do before the job is spawned, in this order.
    pub steps: Vec<Setup>,
    /// The job, to be spawned last.
    pub job: Job<(Command, String, Initialized, String)>,
}

/// The controller of one client.
#[derive(Debug)]
pub struct Controller<'c, J> {
    client: &'c str,
    client_uid: u32,
    client_gid: u32,
    jobs: HashMap<u128, J>,
}

impl<'c, J> Controller<'c, J> {
    /// The client's name.
    pub closed spec fn client(&self) -> Seq<char> {
        self.client@
    }

    /// The user id under which the client's jobs run.
    pub closed spec fn uid(&self) -> u32 {
        self.client_uid
    }

    /// The group id under which the client's jobs run.
    pub closed spec fn gid(&self) -> u32 {
        self.client_gid
    }

    /// The client's jobs, by id.
    pub closed spec fn jobs(&self) -> Map<u128, J> {
        self.jobs@
    }
}

impl<'c> Controller<'c, Job<Started>> {
    /// The cgroup of `client`, which has to exist before the controller is
    /// made.
    pub fn cgroup_dir(client: &str) -> (dir: String)
        ensures
            dir@ == client_cgroup(client@),
    {
        join(BASE_CG_PATH, client)
    }

    /// The controller of `client`, whose account has the ids `client_uid`
    /// and `client_gid` and whose cgroup offers the controllers that
    /// `enabled`, the text of its `cgroup.controllers`, names. With it comes
    /// the write that switches cpu, memory and io on for the client's jobs.
    /// A name with a NUL byte in it is refused, and so is a cgroup that does
    /// not offer all three controllers.
    pub fn new(client: &'c str, client_uid: u32, client_gid: u32, enabled: &str) -> (r: Result<
        (Controller<'c, Job<Started>>, FileWrite),
        Error,
    >)
        ensures
            match first_nul(client.spec_bytes()) {
                Some(position) => r matches Err(err) && err == Error::CStringError(position),
                None => if covers(enabled.spec_bytes(), crate::cgroup::all_controllers()) {
                    r matches Ok(made) && made.0.client() == client@ && made.0.uid() == client_uid
                        && made.0.gid() == client_gid && made.0.jobs() == Map::<
                        u128,
                        Job<Started>,
                    >::empty() && made.1.deep_view() == (
                        file_in(client_cgroup(client@), SUBTREE_CONTROL@),
                        prefixed(crate::cgroup::all_controllers(), '+'),
                    )
                } else {
                    r matches Err(Error::Cgroup(crate::cgroup::Error::NotEnabled(dir))) && dir@
                        == client_cgroup(client@)
                },
            },
    {
        if let Some(position) = nul_position(client) {
            return Err(Error::CStringError(position));
        }
        let cgroup_dir = Self::cgroup_dir(client);
        match crate::cgroup::enable_subtree(
            cgroup_dir.as_str(),
            enabled,
            crate::cgroup::Controller::all(),
        ) {
            Ok(write) => {
                let controller = Controller { client, client_uid, client_gid, jobs: HashMap::new() };
                Ok((controller, write))
            },
            Err(err) => Err(Error::Cgroup(err)),
        }
    }

    /// Whether `r` is what preparing `job_request` for a job with id `id`
    /// comes to: a refusal of the CPU weight first, of a cgroup path too long
    /// for its buffer second, else the plan for the job.
    pub open spec fn prepares(&self, job_request: &JobRequest, id: u128, r: Result<Prepared, Error>)
        -> bool {
        let job_dir = job_dir(self.client(), id);
        let cgroup_dir = job_cgroup(self.client(), id);
        let procs = encode_utf8(procs_path(cgroup_dir));
        match refused_weight(job_request.cpu_control) {
            Some(weight) => r == Err::<Prepared, Error>(
                Error::Cgroup(crate::cgroup::Error::InvalidCpuWeight(weight)),
            ),
            None => if procs.len() > 256 {
                r == Err::<Prepared, Error>(
                    Error::JobError(
                        crate::job::Error::STString(
                            stack_string::Error::InvalidBufSize(procs.len() as usize, 256),
                        ),
                    ),
                )
            } else {
                &&& r matches Ok(prepared)
                &&& prepared.job_dir@ == job_dir
                &&& prepared.cgroup_dir@ == cgroup_dir
                &&& prepared.steps.deep_view() == setup_for(
                    job_dir,
                    cgroup_dir,
                    cpu_writes(cgroup_dir, job_request.cpu_control) + mem_writes(
                        cgroup_dir,
                        job_request.mem_control,
                    ) + io_writes(cgroup_dir, job_request.io_control),
                )
                &&& prepared.job.id() == id
                &&& prepared.job.state().0@ == command_for(
                    job_request.executable@,
                    job_request.args.deep_view(),
                ).followed_by(HookView::JoinCgroup { procs }).followed_by(
                    HookView::DropPrivileges { gid: self.gid(), uid: self.uid() },
                ).in_dir(job_dir)
                &&& prepared.job.state().1@ == job_dir
                &&& prepared.job.state().3@ == cgroup_dir
            },
        }
    }

    /// Plans the start of `job`, a job that has nothing but its id, for
    /// `job_request`: where its directories are, which limits are written
    /// into its cgroup, and the child, which joins the cgroup, then takes the
    /// client's group and user, in the job's directory.
    pub fn prepare_job(&self, job: Job<Empty>, job_request: &JobRequest) -> (r: Result<
        Prepared,
        Error,
    >)
        ensures
            self.prepares(job_request, job.id(), r),
    {
        let job_id = path_segment(job.id());
        let client_dir = join(BASE_PATH, self.client);
        let job_dir = join(client_dir.as_str(), job_id.as_str());
        let client_cgroup = join(BASE_CG_PATH, self.client);
        let cgroup_dir = join(client_cgroup.as_str(), job_id.as_str());
        let mut writes = match crate::cgroup::set_cpu_control(cgroup_dir.as_str(), job_request) {
            Ok(writes) => writes,
            Err(err) => {
                return Err(Error::Cgroup(err));
            },
        };
        let ghost cpu = writes.deep_view();
        let mut mem = crate::cgroup::set_mem_control(cgroup_dir.as_str(), job_request);
        let ghost memory = mem.deep_view();
        let mut io = crate::cgroup::set_io_control(cgroup_dir.as_str(), job_request);
        let ghost inout = io.deep_view();
        writes.append(&mut mem);
        writes.append(&mut io);
        proof {
            assert(writes.deep_view() =~= cpu + memory + inout);
        }
        let job = match job.add_command(job_request).add_to_cgroup(cgroup_dir.clone()) {
            Ok(job) => job,
            Err(err) => {
                return Err(Error::JobError(err));
            },
        };
        let job = job.set_ownership(self.client_uid, self.client_gid).set_job_dir(job_dir.clone());
        let mut steps: Vec<Setup> = Vec::new();
        steps.push(Setup::MakeDir(job_dir.clone()));
        steps.push(Setup::MakeDir(cgroup_dir.clone()));
        let mut i: usize = 0;
        while i < writes.len()
            invariant
                0 <= i <= writes@.len(),
                steps@.len() == 2 + i,
                steps@[0].deep_view() == SetupView::MakeDir(job_dir@),
                steps@[1].deep_view() == SetupView::MakeDir(cgroup_dir@),
                forall|j: int|
                    0 <= j < i ==> (#[trigger] steps@[2 + j]).deep_view() == SetupView::Write(
                        writes@[j].path@,
                        writes@[j].contents@,
                    ),
            decreases writes@.len() - i,
        {
            let write = FileWrite {
                path: writes[i].path.clone(),
                contents: writes[i].contents.clone(),
            };
            steps.push(Setup::Write(write));
            i = i + 1;
        }
        proof {
            let planned = setup_for(job_dir@, cgroup_dir@, writes.deep_view());
            assert(steps.deep_view().len() == planned.len());
            assert forall|k: int| 0 <= k < planned.len() implies steps.deep_view()[k]
                == planned[k] by {
                if k >= 2 {
                    assert(steps@[2 + (k - 2)].deep_view() == SetupView::Write(
                        writes@[k - 2].path@,
                        writes@[k - 2].contents@,
                    ));
                    assert(writes.deep_view()[k - 2] == (
                        writes@[k - 2].path@,
                        writes@[k - 2].contents@,
                    ));
                }
            }
            assert(steps.deep_view() =~= planned);
        }
        Ok(Prepared { job_dir, cgroup_dir, steps, job })
    }

    /// Plans the start of a new job for `job_request`, under an id of its
    /// own.
    pub fn prepare(&self, job_request: &JobRequest) -> (r: Result<Prepared, Error>)
        ensures
            exists|id: u128| self.prepares(job_request, id, r),
    {
        let job = Job::<Empty>::default();
        let ghost id = job.id();
        let r = self.prepare_job(job, job_request);
        assert(self.prepares(job_request, id, r));
        r
    }

    /// Takes a job that was spawned among the client's jobs, under its id,
    /// and returns the id.
    pub fn start(&mut self, job: Job<Started>) -> (job_id: u128)
        ensures
            job_id == job.id(),
            final(self).jobs() == old(self).jobs().insert(job.id(), job),
            final(self).client() == old(self).client(),
            final(self).uid() == old(self).uid(),
            final(self).gid() == old(self).gid(),
    {
        let job_id = job.id();
        self.jobs.insert(job_id, job);
        job_id
    }

    /// What is known of the end of the job with id `job_id`. There is no
    /// outcome while the job is in progress. An id that the client has no
    /// job for is an error.
    pub fn status(&self, job_id: u128) -> (r: Result<crate::runner::JobStatus, Error>)
        ensures
            !self.jobs().contains_key(job_id) ==> r == Err::<crate::runner::JobStatus, Error>(
                Error::JobNotFound(job_id),
            ),
            self.jobs().contains_key(job_id) ==> exists|
                glimpse: Option<crate::job::JobStatus>,
                read: Option<crate::job::JobStatus>,
            |
                r == Ok::<crate::runner::JobStatus, Error>(crate::job::report_of(glimpse, read)),
    {
        match self.jobs.get(&job_id) {
            Some(job) => Ok(job.status()),
            None => Err(Error::JobNotFound(job_id)),
        }
    }

    /// Asks for the job with id `job_id` to be ended, if the client has such
    /// a job. The answer is the same whether it has or not, and whether the
    /// job still runs or not, and the controller is as it was.
    pub fn stop(&mut self, job_id: u128) -> (ack: Ack)
        ensures
            *final(self) == *old(self),
    {
        if let Some(job) = self.jobs.get(&job_id) {
            job.cancel();
        }
        Ack {  }
    }

    /// What it takes to stream the output of the job with id `job_id`: two
    /// readers that read the files once where the job has completed, two
    /// that follow the files until it completes where it has not. An id that
    /// the client has no job for is an error.
    pub fn output(&self, job_id: u128) -> (r: Result<Output, Error>)
        ensures
            !self.jobs().contains_key(job_id) ==> (r matches Err(err) && err == Error::JobNotFound(
                job_id,
            )),
            self.jobs().contains_key(job_id) ==> (r matches Ok(output) && {
                let dir = self.jobs()[job_id].spec_job_dir();
                &&& output.capacity == CHANNEL_CAPACITY
                &&& output.out.fd == Fd::Out
                &&& output.out.path@ == out_path(dir)
                &&& !output.out.closed
                &&& output.err.fd == Fd::Error
                &&& output.err.path@ == err_path(dir)
                &&& !output.err.closed
                &&& output.err.done == output.out.done
                &&& output.completion is Some <==> !output.out.done
            }),
    {
        let job = match self.jobs.get(&job_id) {
            Some(job) => job,
            None => {
                return Err(Error::JobNotFound(job_id));
            },
        };
        let job_dir = job.job_dir();
        if job.is_complete() {
            let out = Self::read_file(Fd::Out, job_dir);
            let err = Self::read_file(Fd::Error, job_dir);
            Ok(Output { out, err, completion: None, capacity: CHANNEL_CAPACITY })
        } else {
            let completion = job.subscribe();
            let out = Self::watch_file(Fd::Out, job_dir);
            let err = Self::watch_file(Fd::Error, job_dir);
            Ok(Output { out, err, completion: Some(completion), capacity: CHANNEL_CAPACITY })
        }
    }

    /// The path of the file that holds what a job wrote to `fd`.
    pub open spec fn log_path(fd: Fd, job_dir: Seq<char>) -> Seq<char> {
        match fd {
            Fd::Out => out_path(job_dir),
            Fd::Error => err_path(job_dir),
        }
    }

    /// A reader that follows the file of `fd` in `job_dir` while the job
    /// runs: it goes on at the file's end until the job has completed.
    pub fn watch_file(fd: Fd, job_dir: &str) -> (reader: LogReader)
        ensures
            reader.fd == fd,
            reader.path@ == Self::log_path(fd, job_dir@),
            !reader.done,
            !reader.closed,
    {
        let path = match fd {
            Fd::Out => join(job_dir, "out"),
            Fd::Error => join(job_dir, "err"),
        };
        LogReader { fd, path, done: false, closed: false }
    }

    /// A reader that reads the file of `fd` in `job_dir` once, to its end:
    /// the job has completed, so the first end is the last.
    pub fn read_file(fd: Fd, job_dir: &str) -> (reader: LogReader)
        ensures
            reader.fd == fd,
            reader.path@ == Self::log_path(fd, job_dir@),
            reader.done,
            !reader.closed,
    {
        let path = match fd {
            Fd::Out => join(job_dir, "out"),
            Fd::Error => join(job_dir, "err"),
        };
        LogReader { fd, path, done: true, closed: false }
    }
}

} // verus!
