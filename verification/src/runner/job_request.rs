//! The resource limits that a request may carry.

use vstd::prelude::*;

verus! {

/// Relative share of CPU time. The kernel takes 1 to 10000.
#[derive(Clone, Copy, Debug, PartialEq, Eq)]
pub struct CpuControl {
    pub cpu_weight: u32,
}

/// Memory ceilings in bytes: `mem_high` throttles, `mem_max` kills.
#[derive(Clone, Copy, Debug, PartialEq, Eq)]
pub struct MemControl {
    pub mem_high: u64,
    pub mem_max: u64,
}

/// Read and write ceilings, in bytes per second, on the block device with the
/// given numbers.
#[derive(Clone, Copy, Debug, PartialEq, Eq)]
pub struct IoControl {
    pub major: u32,
    pub minor: u32,
    pub rbps_max: u64,
    pub wbps_max: u64,
}

} // verus!
