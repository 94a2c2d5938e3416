use pls::cgroup::{self, FileWrite};
use pls::controller::{
    ensure_uid_gid, nul_position, useradd_args, Account, AccountEvent, AccountStep, Controller,
    Error, Fd, LogReader, ReadAction, ReadEvent, Setup, CHANNEL_CAPACITY, CHUNK,
};
use pls::id::path_segment;
use pls::job::{Hook, Job, Started, Stdio};
use pls::runner::job_request::{CpuControl, IoControl, MemControl};
use pls::runner::job_status::Outcome;
use pls::runner::{Ack, JobRequest, JobStatus, LogMessage};
use pls::supervisor::Event;
use pls::{Empty, PlsError, BASE_CG_PATH, BASE_PATH};

const ENABLED: &str = "cpuset cpu io memory hugetlb pids";

fn request(executable: &str, args: &[&str]) -> JobRequest {
    JobRequest {
        executable: executable.to_string(),
        args: args.iter().map(|arg| arg.to_string()).collect(),
        cpu_control: None,
        mem_control: None,
        io_control: None,
    }
}

fn limited(executable: &str, args: &[&str]) -> JobRequest {
    JobRequest {
        cpu_control: Some(CpuControl { cpu_weight: 500 }),
        mem_control: Some(MemControl { mem_max: 1024 * 1024 * 1024, mem_high: 1024 * 1024 * 512 }),
        io_control: Some(IoControl { major: 8, minor: 1, rbps_max: 1024, wbps_max: 1024 }),
        ..request(executable, args)
    }
}

fn controller(client: &str) -> Controller<'_, Job<Started>> {
    Controller::new(client, 123, 456, ENABLED).unwrap().0
}

fn write(path: &str, contents: &str) -> FileWrite {
    FileWrite { path: path.to_string(), contents: contents.to_string() }
}

/// Starts a job as an embedding would, without a child: the events that a
/// child's life brings are handed to the monitor by the caller.
fn start(ctr: &mut Controller<'_, Job<Started>>, req: JobRequest) -> (u128, pls::job::Launch) {
    let prepared = ctr.prepare(&req).unwrap();
    let (job, mut launch) = prepared.job.spawn();
    launch.monitor.handle(Event::Opened { ok: true });
    let id = ctr.start(job);
    (id, launch)
}

#[test]
fn base_paths() {
    assert_eq!(BASE_PATH, "/tmp/pls/clients");
    assert_eq!(BASE_CG_PATH, "/sys/fs/cgroup");
    assert_eq!(Controller::cgroup_dir("t1"), "/sys/fs/cgroup/t1");
}

#[test]
fn stream_numbers() {
    assert_eq!(i32::from(Fd::Out), 0);
    assert_eq!(i32::from(Fd::Error), 1);
    let number: i32 = Fd::Error.into();
    assert_eq!(number, 1);
}

#[test]
fn new_controller_enables_the_three_controllers() {
    let (_, write_out) = Controller::new("t1", 123, 456, "memory cpu io").unwrap();
    assert_eq!(write_out, write("/sys/fs/cgroup/t1/cgroup.subtree_control", "+cpu +memory +io"));
}

#[test]
fn new_controller_needs_all_three_controllers() {
    match Controller::new("t1", 123, 456, "memory cpu") {
        Err(err) => assert_eq!(
            err,
            Error::Cgroup(cgroup::Error::NotEnabled("/sys/fs/cgroup/t1".to_string()))
        ),
        Ok(_) => panic!("a cgroup without io was taken"),
    }
}

#[test]
fn controller_is_not_made_for_a_name_with_nul() {
    match Controller::new("t\0", 1, 1, ENABLED) {
        Err(err) => assert_eq!(err, Error::CStringError(1)),
        Ok(_) => panic!("a name with NUL was taken"),
    }
    match Controller::new("\0", 1, 1, "nothing") {
        Err(err) => assert_eq!(err, Error::CStringError(0)),
        Ok(_) => panic!("a name with NUL was taken"),
    }
}

#[test]
fn client_name_is_checked_for_nul_at_the_start() {
    let fresh = Account { added: false };
    assert_eq!(
        ensure_uid_gid("t1", fresh, AccountEvent::Start),
        Ok((fresh, AccountStep::Lookup))
    );
    assert_eq!(ensure_uid_gid("t\0one", fresh, AccountEvent::Start), Err(Error::CStringError(1)));
    assert_eq!(ensure_uid_gid("\0\0", fresh, AccountEvent::Start), Err(Error::CStringError(0)));
    assert_eq!(nul_position("abc"), None);
    assert_eq!(nul_position(""), None);
    assert_eq!(nul_position("abc\0"), Some(3));
    assert_eq!(nul_position("a\0b\0"), Some(1));
}

#[test]
fn existing_account_is_resolved_at_once() {
    let fresh = Account { added: false };
    assert_eq!(
        ensure_uid_gid("t1", fresh, AccountEvent::Found { uid: 123, gid: 456 }),
        Ok((fresh, AccountStep::Resolved { uid: 123, gid: 456 }))
    );
}

#[test]
fn missing_account_is_added_once_and_looked_up_again() {
    let fresh = Account { added: false };
    let (state, step) = ensure_uid_gid("t1", fresh, AccountEvent::Missing { errno: 0 }).unwrap();
    assert_eq!(step, AccountStep::AddUser);
    assert!(state.added);
    let (state, step) = ensure_uid_gid("t1", state, AccountEvent::UserAdded).unwrap();
    assert_eq!(step, AccountStep::Lookup);
    assert!(state.added);
    assert_eq!(
        ensure_uid_gid("t1", state, AccountEvent::Found { uid: 1001, gid: 1001 }),
        Ok((state, AccountStep::Resolved { uid: 1001, gid: 1001 }))
    );
    assert_eq!(
        ensure_uid_gid("t1", state, AccountEvent::Missing { errno: 2 }),
        Err(Error::IOError(2))
    );
}

#[test]
fn failure_to_run_useradd_is_an_io_error() {
    let state = Account { added: true };
    assert_eq!(
        ensure_uid_gid("t1", state, AccountEvent::UserAddFailed { errno: 13 }),
        Err(Error::IOError(13))
    );
}

#[test]
fn useradd_makes_a_locked_account_with_its_own_group() {
    assert_eq!(useradd_args("t1"), vec!["-s", "/sbin/nologin", "-U", "t1"]);
}

#[test]
fn prepare_lays_out_the_job() {
    let ctr = controller("t1");
    let prepared = ctr.prepare(&request("/bin/echo", &["hi"])).unwrap();
    let id = prepared.job.id();
    let segment = path_segment(id);
    assert_eq!(segment.len(), 32);
    assert_eq!(prepared.job_dir, format!("/tmp/pls/clients/t1/{}", segment));
    assert_eq!(prepared.cgroup_dir, format!("/sys/fs/cgroup/t1/{}", segment));
    assert_eq!(
        prepared.steps,
        vec![
            Setup::MakeDir(format!("/tmp/pls/clients/t1/{}", segment)),
            Setup::MakeDir(format!("/sys/fs/cgroup/t1/{}", segment)),
        ]
    );
    let (job, launch) = prepared.job.spawn();
    assert_eq!(job.id(), id);
    assert_eq!(job.job_dir(), format!("/tmp/pls/clients/t1/{}", segment));
    assert_eq!(job.cgroup_dir(), format!("/sys/fs/cgroup/t1/{}", segment));
    assert_eq!(launch.out_file, format!("/tmp/pls/clients/t1/{}/out", segment));
    assert_eq!(launch.err_file, format!("/tmp/pls/clients/t1/{}/err", segment));
    assert_eq!(launch.command.program, "/bin/echo");
    assert_eq!(launch.command.args, vec!["hi"]);
    assert_eq!(launch.command.stdin, Stdio::Inherit);
    assert_eq!(launch.command.stdout, Stdio::Piped);
    assert_eq!(launch.command.stderr, Stdio::Piped);
    assert_eq!(launch.command.current_dir, Some(format!("/tmp/pls/clients/t1/{}", segment)));
    assert_eq!(launch.command.pre_exec.len(), 2);
    match launch.command.pre_exec[0] {
        Hook::JoinCgroup { procs } => {
            assert_eq!(procs.as_str(), format!("/sys/fs/cgroup/t1/{}/cgroup.procs", segment))
        }
        Hook::DropPrivileges { .. } => panic!("the cgroup comes first"),
    }
    assert!(matches!(launch.command.pre_exec[1], Hook::DropPrivileges { gid: 456, uid: 123 }));
}

#[test]
fn prepare_job_uses_the_id_it_is_given() {
    let ctr = controller("t1");
    let job = Job::<Empty>::default();
    let id = job.id();
    let prepared = ctr.prepare_job(job, &request("/bin/true", &[])).unwrap();
    assert_eq!(prepared.job.id(), id);
    assert_eq!(prepared.job_dir, format!("/tmp/pls/clients/t1/{:032x}", id));
}

#[test]
fn cgroup_gating() {
    let ctr = controller("t1");
    let prepared = ctr.prepare(&limited("/bin/echo", &["hi"])).unwrap();
    let dir = prepared.cgroup_dir.clone();
    assert_eq!(
        prepared.steps,
        vec![
            Setup::MakeDir(prepared.job_dir.clone()),
            Setup::MakeDir(dir.clone()),
            Setup::Write(write(&format!("{}/cpu.weight", dir), "500")),
            Setup::Write(write(&format!("{}/memory.high", dir), "536870912")),
            Setup::Write(write(&format!("{}/memory.max", dir), "1073741824")),
            Setup::Write(write(&format!("{}/io.max", dir), "1:8 rbps=1024 wbps=1024")),
        ]
    );
}

#[test]
fn invalid_cpu_weight_stops_the_start() {
    let mut ctr = controller("t1");
    let mut req = limited("/bin/echo", &[]);
    for weight in [0u32, 10001] {
        req.cpu_control = Some(CpuControl { cpu_weight: weight });
        match ctr.prepare(&req) {
            Err(err) => {
                assert_eq!(err, Error::Cgroup(cgroup::Error::InvalidCpuWeight(weight)))
            }
            Ok(_) => panic!("weight {} was taken", weight),
        }
    }
    for weight in [1u32, 10000] {
        req.cpu_control = Some(CpuControl { cpu_weight: weight });
        assert!(ctr.prepare(&req).is_ok());
    }
    assert_eq!(ctr.stop(7), Ack {});
    assert_eq!(ctr.status(7), Err(Error::JobNotFound(7)));
}

#[test]
fn client_name_too_long_for_the_procs_path_stops_the_start() {
    let fits = "c".repeat(256 - "/sys/fs/cgroup/".len() - 1 - 32 - "/cgroup.procs".len());
    assert!(controller(&fits).prepare(&request("/bin/true", &[])).is_ok());
    let long = fits + "c";
    match controller(&long).prepare(&request("/bin/true", &[])) {
        Err(err) => assert_eq!(
            err,
            Error::JobError(pls::job::Error::STString(
                pls::stack_string::Error::InvalidBufSize(257, 256)
            ))
        ),
        Ok(_) => panic!("a path of 257 bytes was taken"),
    }
}

#[test]
fn echo_then_exit() {
    let mut ctr = controller("t1");
    let (id, mut launch) = start(&mut ctr, request("/bin/echo", &["hi"]));
    assert_eq!(ctr.status(id), Ok(JobStatus { outcome: None }));
    launch.monitor.handle(Event::Copied { ok: true });
    launch.monitor.handle(Event::ChildExited { code: Some(0), signal: None });
    launch.monitor.handle(Event::Flushed { ok: true });
    assert_eq!(ctr.status(id), Ok(JobStatus { outcome: Some(Outcome::ExitCode(0)) }));

    let output = ctr.output(id).unwrap();
    assert!(output.completion.is_none());
    let mut out = output.out;
    assert_eq!(out.fd, Fd::Out);
    assert_eq!(out.path, launch.out_file);
    let mut buffer = [0u8; CHUNK];
    buffer[..3].copy_from_slice(b"hi\n");
    assert_eq!(out.handle(ReadEvent::Read { bytes_read: 3 }), ReadAction::Send);
    assert_eq!(out.message(&buffer, 3), LogMessage { fd: 0, output: b"hi\n".to_vec() });
    assert_eq!(out.handle(ReadEvent::Read { bytes_read: 0 }), ReadAction::Close);
    let mut err = output.err;
    assert_eq!(err.fd, Fd::Error);
    assert_eq!(err.path, launch.err_file);
    assert_eq!(err.handle(ReadEvent::Read { bytes_read: 0 }), ReadAction::Close);
}

#[test]
fn nonzero_exit() {
    let mut ctr = controller("t1");
    let (id, mut launch) = start(&mut ctr, request("/bin/sh", &["-c", "exit 7"]));
    launch.monitor.handle(Event::ChildExited { code: Some(7), signal: None });
    launch.monitor.handle(Event::Flushed { ok: true });
    assert_eq!(ctr.status(id), Ok(JobStatus { outcome: Some(Outcome::ExitCode(7)) }));
}

#[test]
fn cancel_long_runner() {
    let mut ctr = controller("t1");
    let (id, mut launch) = start(&mut ctr, request("/bin/sleep", &["3600"]));
    let output = ctr.output(id).unwrap();
    assert!(output.completion.is_some());
    let mut out = output.out;
    assert!(!out.done);
    assert_eq!(out.handle(ReadEvent::Read { bytes_read: 0 }), ReadAction::Continue);

    assert_eq!(ctr.stop(id), Ack {});
    launch.monitor.handle(Event::CancelRequested);
    launch.monitor.handle(Event::Flushed { ok: true });
    launch.monitor.handle(Event::Killed { ok: true });
    assert_eq!(ctr.status(id), Ok(JobStatus { outcome: Some(Outcome::Signal(9)) }));
    assert!(*output.completion.unwrap().borrow());

    assert_eq!(out.handle(ReadEvent::Completed), ReadAction::Continue);
    assert_eq!(out.handle(ReadEvent::Read { bytes_read: 0 }), ReadAction::Close);
    assert_eq!(out.handle(ReadEvent::Read { bytes_read: 5 }), ReadAction::Close);
}

#[test]
fn late_subscriber_replay() {
    let mut ctr = controller("t1");
    let (id, mut launch) = start(&mut ctr, request("/bin/echo", &["hi"]));
    launch.monitor.handle(Event::ChildExited { code: Some(0), signal: None });
    launch.monitor.handle(Event::Flushed { ok: true });

    let output = ctr.output(id).unwrap();
    assert_eq!(output.capacity, 20);
    assert_eq!(CHANNEL_CAPACITY, 20);
    let mut out = output.out;
    assert!(out.done);
    let mut sent = Vec::new();
    let file = b"hi\n";
    let mut reads = vec![3usize, 0, 0, 0].into_iter();
    loop {
        let bytes_read = reads.next().unwrap();
        match out.handle(ReadEvent::Read { bytes_read }) {
            ReadAction::Send => sent.push(out.message(file, bytes_read)),
            ReadAction::Continue => {}
            ReadAction::Close => break,
        }
    }
    assert_eq!(sent, vec![LogMessage { fd: 0, output: b"hi\n".to_vec() }]);
    assert_eq!(reads.len(), 2);
}

#[test]
fn unknown_id() {
    let mut ctr = controller("t1");
    let (known, _launch) = start(&mut ctr, request("/bin/true", &[]));
    let random_uuid = uuid::Uuid::new_v4().as_u128();
    assert_ne!(known, random_uuid);
    assert_eq!(ctr.status(random_uuid), Err(Error::JobNotFound(random_uuid)));
    match ctr.output(random_uuid) {
        Err(err) => assert_eq!(err, Error::JobNotFound(random_uuid)),
        Ok(_) => panic!("output of a job that is not there"),
    }
    assert_eq!(ctr.stop(random_uuid), Ack {});
    assert_eq!(ctr.status(known), Ok(JobStatus { outcome: None }));
}

#[test]
fn stopping_again_changes_nothing() {
    let mut ctr = controller("t1");
    let (id, mut launch) = start(&mut ctr, request("/bin/sleep", &["3600"]));
    for _ in 0..3 {
        assert_eq!(ctr.stop(id), Ack {});
        assert_eq!(ctr.status(id), Ok(JobStatus { outcome: None }));
    }
    launch.monitor.handle(Event::CancelRequested);
    launch.monitor.handle(Event::Flushed { ok: true });
    launch.monitor.handle(Event::Killed { ok: true });
    for _ in 0..3 {
        assert_eq!(ctr.stop(id), Ack {});
        assert_eq!(ctr.status(id), Ok(JobStatus { outcome: Some(Outcome::Signal(9)) }));
    }
}

#[test]
fn two_jobs_are_kept_apart() {
    let mut ctr = controller("t1");
    let (first, mut first_launch) = start(&mut ctr, request("/bin/true", &[]));
    let (second, _second_launch) = start(&mut ctr, request("/bin/false", &[]));
    assert_ne!(first, second);
    first_launch.monitor.handle(Event::ChildExited { code: Some(0), signal: None });
    first_launch.monitor.handle(Event::Flushed { ok: true });
    assert_eq!(ctr.status(first), Ok(JobStatus { outcome: Some(Outcome::ExitCode(0)) }));
    assert_eq!(ctr.status(second), Ok(JobStatus { outcome: None }));
    assert!(ctr.output(first).unwrap().out.done);
    assert!(!ctr.output(second).unwrap().out.done);
}

#[test]
fn tailing_reader_goes_on_at_the_end_until_completion() {
    let mut reader = Controller::watch_file(Fd::Error, "/jobs/t1/j");
    assert_eq!(reader.path, "/jobs/t1/j/err");
    assert_eq!(reader.fd, Fd::Error);
    assert_eq!(reader.handle(ReadEvent::Read { bytes_read: 0 }), ReadAction::Continue);
    assert_eq!(reader.handle(ReadEvent::Read { bytes_read: 512 }), ReadAction::Send);
    assert_eq!(reader.handle(ReadEvent::Read { bytes_read: 0 }), ReadAction::Continue);
    assert_eq!(reader.handle(ReadEvent::Completed), ReadAction::Continue);
    assert_eq!(reader.handle(ReadEvent::Read { bytes_read: 17 }), ReadAction::Send);
    assert_eq!(reader.handle(ReadEvent::Read { bytes_read: 0 }), ReadAction::Close);
    assert!(reader.closed);
}

#[test]
fn replaying_reader_stops_at_the_first_end() {
    let mut reader = Controller::read_file(Fd::Out, "/jobs/t1/j");
    assert_eq!(reader.path, "/jobs/t1/j/out");
    assert_eq!(reader.handle(ReadEvent::Read { bytes_read: 512 }), ReadAction::Send);
    assert_eq!(reader.handle(ReadEvent::Read { bytes_read: 1 }), ReadAction::Send);
    assert_eq!(reader.handle(ReadEvent::Read { bytes_read: 0 }), ReadAction::Close);
}

#[test]
fn reader_stops_on_errors() {
    let mut reader = Controller::watch_file(Fd::Out, "/j");
    assert_eq!(reader.handle(ReadEvent::ReadFailed), ReadAction::Close);
    let mut reader = Controller::watch_file(Fd::Out, "/j");
    assert_eq!(reader.handle(ReadEvent::Read { bytes_read: 4 }), ReadAction::Send);
    assert_eq!(reader.handle(ReadEvent::SendFailed), ReadAction::Close);
    assert_eq!(reader.handle(ReadEvent::Completed), ReadAction::Close);
}

#[test]
fn message_carries_the_stream_number_and_the_bytes_read() {
    let out = LogReader { fd: Fd::Out, path: "/j/out".to_string(), done: false, closed: false };
    let err = LogReader { fd: Fd::Error, path: "/j/err".to_string(), done: false, closed: false };
    let buffer = *b"abcdefgh";
    assert_eq!(out.message(&buffer, 3), LogMessage { fd: 0, output: b"abc".to_vec() });
    assert_eq!(err.message(&buffer, 8), LogMessage { fd: 1, output: b"abcdefgh".to_vec() });
    assert_eq!(err.message(&buffer, 0), LogMessage { fd: 1, output: vec![] });
    assert_eq!(out.message_checked(&buffer, 9), None);
    assert_eq!(
        out.message_checked(&buffer, 8),
        Some(LogMessage { fd: 0, output: b"abcdefgh".to_vec() })
    );
}

#[test]
fn errors_wrap_the_errors_below_them() {
    let too_long = pls::stack_string::Error::InvalidBufSize(300, 256);
    let job = pls::job::Error::from(too_long);
    assert_eq!(job, pls::job::Error::STString(too_long));
    assert_eq!(Error::from(job), Error::JobError(job));
    let weight = cgroup::Error::InvalidCpuWeight(0);
    assert_eq!(Error::from(weight.clone()), Error::Cgroup(weight));
    assert_ne!(Error::Conversion, Error::IOError(0));
    assert_eq!(
        PlsError::from(Error::JobNotFound(9)),
        PlsError::CTError(Error::JobNotFound(9))
    );
}

#[test]
fn errors_nest() {
    let err = PlsError::CTError(Error::JobNotFound(1));
    assert!(matches!(err, PlsError::CTError(Error::JobNotFound(1))));
    assert!(matches!(PlsError::IOError(2), PlsError::IOError(2)));
}
