//! How much of a cross-workload flow the scheduler is allowed to see, and what a flow's
//! downstream stage still has to materialise.
use vstd::prelude::*;

use crate::blob::{BlobId, BlobMeta};

verus! {

#[derive(Clone, Copy, PartialEq, Eq, Debug, Structural)]
pub enum FlowMode {
    /// Flows are invisible: each workload is scheduled on its own arrivals only.
    Blind,
    /// Downstream state is valued before it is requested.
    Announce,
    /// Also refuse an upstream stage whose downstream cannot be made resident.
    Gate,
}

/// Bytes of the first `n` downstream blobs that are not resident.
pub open spec fn missing_of(downstream: Seq<(BlobId, BlobMeta)>, resident: Seq<bool>, n: int) -> int
    decreases n,
{
    if n <= 0 {
        0
    } else {
        missing_of(downstream, resident, n - 1) + if resident[n - 1] {
            0int
        } else {
            downstream[n - 1].1.bytes as int
        }
    }
}

proof fn lemma_missing_grows(
    downstream: Seq<(BlobId, BlobMeta)>,
    resident: Seq<bool>,
    a: int,
    b: int,
)
    requires
        0 <= a <= b,
    ensures
        0 <= missing_of(downstream, resident, a) <= missing_of(downstream, resident, b),
    decreases b,
{
    if a < b {
        lemma_missing_grows(downstream, resident, a, b - 1);
    } else if a > 0 {
        lemma_missing_grows(downstream, resident, a - 1, a - 1);
    }
}

/// Bytes of a flow's downstream working set not yet resident: what the task will still have
/// to materialise after the current stage completes. `resident` says, blob by blob, whether
/// the blob is already resident.
pub fn missing_bytes(downstream: &[(BlobId, BlobMeta)], resident: &[bool]) -> (b: u64)
    requires
        resident@.len() == downstream@.len(),
        missing_of(downstream@, resident@, downstream@.len() as int) <= u64::MAX,
    ensures
        b == missing_of(downstream@, resident@, downstream@.len() as int),
{
    let mut total: u64 = 0;
    let mut i: usize = 0;
    while i < downstream.len()
        invariant
            i <= downstream@.len(),
            resident@.len() == downstream@.len(),
            missing_of(downstream@, resident@, downstream@.len() as int) <= u64::MAX,
            total == missing_of(downstream@, resident@, i as int),
        decreases downstream@.len() - i,
    {
        proof {
            lemma_missing_grows(downstream@, resident@, i + 1, downstream@.len() as int);
        }
        if !resident[i] {
            total = total + downstream[i].1.bytes;
        }
        i = i + 1;
    }
    total
}

} // verus!
