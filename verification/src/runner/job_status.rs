//! How a job ended.

use vstd::prelude::*;

verus! {

/// The end of a job: it exited with a code, or a signal ended it.
#[derive(Clone, Copy, Debug, PartialEq, Eq)]
pub enum Outcome {
    ExitCode(i32),
    Signal(i32),
}

} // verus!
