//! Host facts the simulator reads: the direct-I/O block size, and how a host's answers are
//! read. The calls that ask the host stand outside the library.
use vstd::prelude::*;

verus! {

/// Alignment and granularity of direct I/O: buffers and offsets are multiples of this.
pub const DIRECT_ALIGN: usize = 4096;

/// Scheduling class, which on some hosts steers a thread to the performance or efficiency
/// cluster.
#[derive(Clone, Copy, Debug, PartialEq, Eq, Structural)]
pub enum Cluster {
    Performance,
    Efficiency,
}

/// The value of a numeric kernel parameter, from the word the kernel wrote and the number of
/// bytes it says it wrote: some keys are 32-bit and some 64-bit, so the width decides, and any
/// other width is no answer.
pub fn sysctl_value(out: u64, len: usize) -> (v: Option<u64>)
    ensures
        v == if len == 4 {
            Some((out % 0x1_0000_0000) as u64)
        } else if len == 8 {
            Some(out)
        } else {
            None::<u64>
        },
{
    if len == 4 {
        Some(out % 0x1_0000_0000)
    } else if len == 8 {
        Some(out)
    } else {
        None
    }
}

/// The quality-of-service class that steers a thread to a cluster: user-interactive work to
/// the performance cores, background work to the efficiency cores.
pub fn qos_class(c: Cluster) -> (q: u32)
    ensures
        q == match c {
            Cluster::Performance => 0x21u32,
            Cluster::Efficiency => 0x09u32,
        },
{
    match c {
        Cluster::Performance => 0x21,
        Cluster::Efficiency => 0x09,
    }
}

} // verus!
