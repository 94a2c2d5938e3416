//! The core of a multi-tenant job runner for Linux.
//!
//! A client asks for a program to be run. The runner puts the job into a
//! cgroup of its own with the client's limits, runs it under the client's
//! user and group, keeps what it prints in two files, and lets any number of
//! readers follow those files while the job runs and after.
//!
//! This crate holds the decisions: which files to write and what into them,
//! in which order a child is prepared, what a supervisor does on each event,
//! when a reader of the output is done. It opens no file and starts no
//! process; whoever embeds it does, and tells it what came of that.

use vstd::prelude::*;

pub mod cells;
pub mod cgroup;
pub mod controller;
pub mod id;
pub mod job;
pub mod runner;
pub mod service;
pub mod stack_string;
pub mod stub;
pub mod supervisor;
pub mod text;

verus! {

/// Under this directory each client has a directory, and in it each job.
pub const BASE_PATH: &'static str = "/tmp/pls/clients";

/// Under this directory each client has a cgroup, and in it each job.
pub const BASE_CG_PATH: &'static str = "/sys/fs/cgroup";

/// What the runner as a whole can fail with.
#[derive(Clone, Debug, PartialEq, Eq)]
pub enum PlsError {
    /// The operating system refused; the number is its errno.
    IOError(i32),
    /// A client's controller failed.
    CTError(controller::Error),
}

impl vstd::std_specs::convert::FromSpecImpl<controller::Error> for PlsError {
    open spec fn obeys_from_spec() -> bool {
        true
    }

    open spec fn from_spec(err: controller::Error) -> Self {
        PlsError::CTError(err)
    }
}

impl From<controller::Error> for PlsError {
    fn from(err: controller::Error) -> (wrapped: Self)
        ensures
            wrapped == PlsError::CTError(err),
    {
        PlsError::CTError(err)
    }
}

/// Marks a stage of a job that has not been filled in.
#[derive(Debug)]
pub struct Empty;

} // verus!
