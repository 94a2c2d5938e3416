//! The values that pass between the runner and whoever embeds it.

use vstd::prelude::*;

pub mod job_request;
pub mod job_status;

verus! {

/// A request to run one executable.
#[derive(Clone, Debug, PartialEq, Eq)]
pub struct JobRequest {
    /// Path of the program to run.
    pub executable: String,
    /// Its arguments, in order, without the program's own name.
    pub args: Vec<String>,
    /// CPU weight for the job's cgroup, if any.
    pub cpu_control: Option<job_request::CpuControl>,
    /// Memory ceilings for the job's cgroup, if any.
    pub mem_control: Option<job_request::MemControl>,
    /// Bandwidth limits on one block device, if any.
    pub io_control: Option<job_request::IoControl>,
}

/// What is known of a job's end: nothing while it runs, how it ended after.
#[derive(Clone, Copy, Debug, PartialEq, Eq)]
pub struct JobStatus {
    /// Absent while the job is in progress.
    pub outcome: Option<job_status::Outcome>,
}

/// A piece of a job's output.
#[derive(Clone, Debug, PartialEq, Eq)]
pub struct LogMessage {
    /// 0 for the job's standard output, 1 for its standard error.
    pub fd: i32,
    /// The bytes, as the job wrote them.
    pub output: Vec<u8>,
}

/// The answer to a request that has nothing to report.
#[derive(Clone, Copy, Debug, PartialEq, Eq)]
pub struct Ack {}

} // verus!
