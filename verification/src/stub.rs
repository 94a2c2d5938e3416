//! Stand-ins for the calls that change who a process is and that make
//! accounts. They do nothing and report success, so that the pipeline can be
//! run where the real calls would need privileges.

use crate::controller::Error;
use vstd::prelude::*;

verus! {

/// Stands in for `setuid(2)`: changes nothing and returns 0, the call's
/// report of success.
pub fn setuid(_uid: i32) -> (returned: i32)
    ensures
        returned == 0,
{
    0
}

/// Stands in for `setgid(2)`: changes nothing and returns 0, the call's
/// report of success.
pub fn setgid(_gid: i32) -> (returned: i32)
    ensures
        returned == 0,
{
    0
}

/// Stands in for the `useradd` program: adds nobody and reports success.
pub fn useradd(_client: &str) -> (added: Result<(), Error>)
    ensures
        added is Ok,
{
    Ok(())
}

} // verus!
