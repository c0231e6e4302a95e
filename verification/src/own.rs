//! Which side of the orchestrator/engine boundary answers a question about a class of state
//! in a given memory pool.
//!
//! Two axes, not one: the orchestrator sizes an accelerator partition that the engine
//! allocates within, and an engine-owned offload tier sits inside a host budget the
//! orchestrator sizes. The predicate answers; it does not enforce.
use vstd::prelude::*;

use crate::blob::BlobKind;
use crate::tier::Tier;

verus! {

/// Which side holds authority over the answer to a `Question`. `Engine` does not mean "the
/// engine's memory": it means the engine is the source of truth for this question about this
/// class in this pool.
#[derive(Clone, Copy, PartialEq, Eq, Debug, Structural)]
pub enum Authority {
    Orchestrator,
    Engine,
}

/// How big a pool is (slow, coarse) against which bytes occupy it right now (fast,
/// per-request). The same `(kind, tier)` cell can answer the two differently.
#[derive(Clone, Copy, PartialEq, Eq, Debug, Structural)]
pub enum Question {
    Capacity,
    Allocation,
}

/// The ownership table, cell by cell.
pub open spec fn authority_of(kind: BlobKind, tier: Tier, q: Question) -> Authority {
    match (kind, tier, q) {
        (BlobKind::KvBlock, Tier::Hbm, Question::Capacity) => Authority::Orchestrator,
        (BlobKind::KvBlock, Tier::Hbm, Question::Allocation) => Authority::Engine,
        (BlobKind::KvBlock, Tier::Ddr, Question::Capacity) => Authority::Orchestrator,
        (BlobKind::KvBlock, Tier::Ddr, Question::Allocation) => Authority::Engine,
        (BlobKind::KvBlock, Tier::Nvme, Question::Capacity) => Authority::Orchestrator,
        (BlobKind::KvBlock, Tier::Nvme, Question::Allocation) => Authority::Engine,
        (BlobKind::WeightShard, Tier::Hbm, Question::Capacity) => Authority::Orchestrator,
        (BlobKind::WeightShard, Tier::Hbm, Question::Allocation) => Authority::Engine,
        (BlobKind::WeightShard, Tier::Ddr, Question::Capacity) => Authority::Orchestrator,
        (BlobKind::WeightShard, Tier::Ddr, Question::Allocation) => Authority::Engine,
        (BlobKind::WeightShard, Tier::Nvme, Question::Capacity) => Authority::Orchestrator,
        (BlobKind::WeightShard, Tier::Nvme, Question::Allocation) => Authority::Engine,
        (BlobKind::Snapshot, Tier::Hbm, Question::Capacity) => Authority::Orchestrator,
        (BlobKind::Snapshot, Tier::Hbm, Question::Allocation) => Authority::Orchestrator,
        (BlobKind::Snapshot, Tier::Ddr, Question::Capacity) => Authority::Orchestrator,
        (BlobKind::Snapshot, Tier::Ddr, Question::Allocation) => Authority::Orchestrator,
        (BlobKind::Snapshot, Tier::Nvme, Question::Capacity) => Authority::Orchestrator,
        (BlobKind::Snapshot, Tier::Nvme, Question::Allocation) => Authority::Orchestrator,
        (BlobKind::ServiceHeap, Tier::Hbm, Question::Capacity) => Authority::Orchestrator,
        (BlobKind::ServiceHeap, Tier::Hbm, Question::Allocation) => Authority::Orchestrator,
        (BlobKind::ServiceHeap, Tier::Ddr, Question::Capacity) => Authority::Orchestrator,
        (BlobKind::ServiceHeap, Tier::Ddr, Question::Allocation) => Authority::Orchestrator,
        (BlobKind::ServiceHeap, Tier::Nvme, Question::Capacity) => Authority::Orchestrator,
        (BlobKind::ServiceHeap, Tier::Nvme, Question::Allocation) => Authority::Orchestrator,
    }
}

/// Total over `(BlobKind, Tier, Question)`, with every row spelled out so it can be read
/// against the table one line at a time.
pub fn authority(kind: BlobKind, tier: Tier, q: Question) -> (a: Authority)
    ensures
        a == authority_of(kind, tier, q),
{
    match (kind, tier, q) {
        (BlobKind::KvBlock, Tier::Hbm, Question::Capacity) => Authority::Orchestrator,
        (BlobKind::KvBlock, Tier::Hbm, Question::Allocation) => Authority::Engine,
        (BlobKind::KvBlock, Tier::Ddr, Question::Capacity) => Authority::Orchestrator,
        (BlobKind::KvBlock, Tier::Ddr, Question::Allocation) => Authority::Engine,
        (BlobKind::KvBlock, Tier::Nvme, Question::Capacity) => Authority::Orchestrator,
        (BlobKind::KvBlock, Tier::Nvme, Question::Allocation) => Authority::Engine,
        (BlobKind::WeightShard, Tier::Hbm, Question::Capacity) => Authority::Orchestrator,
        (BlobKind::WeightShard, Tier::Hbm, Question::Allocation) => Authority::Engine,
        (BlobKind::WeightShard, Tier::Ddr, Question::Capacity) => Authority::Orchestrator,
        (BlobKind::WeightShard, Tier::Ddr, Question::Allocation) => Authority::Engine,
        (BlobKind::WeightShard, Tier::Nvme, Question::Capacity) => Authority::Orchestrator,
        (BlobKind::WeightShard, Tier::Nvme, Question::Allocation) => Authority::Engine,
        (BlobKind::Snapshot, Tier::Hbm, Question::Capacity) => Authority::Orchestrator,
        (BlobKind::Snapshot, Tier::Hbm, Question::Allocation) => Authority::Orchestrator,
        (BlobKind::Snapshot, Tier::Ddr, Question::Capacity) => Authority::Orchestrator,
        (BlobKind::Snapshot, Tier::Ddr, Question::Allocation) => Authority::Orchestrator,
        (BlobKind::Snapshot, Tier::Nvme, Question::Capacity) => Authority::Orchestrator,
        (BlobKind::Snapshot, Tier::Nvme, Question::Allocation) => Authority::Orchestrator,
        (BlobKind::ServiceHeap, Tier::Hbm, Question::Capacity) => Authority::Orchestrator,
        (BlobKind::ServiceHeap, Tier::Hbm, Question::Allocation) => Authority::Orchestrator,
        (BlobKind::ServiceHeap, Tier::Ddr, Question::Capacity) => Authority::Orchestrator,
        (BlobKind::ServiceHeap, Tier::Ddr, Question::Allocation) => Authority::Orchestrator,
        (BlobKind::ServiceHeap, Tier::Nvme, Question::Capacity) => Authority::Orchestrator,
        (BlobKind::ServiceHeap, Tier::Nvme, Question::Allocation) => Authority::Orchestrator,
    }
}

/// Capacity is the orchestrator's in every cell: the loss across the boundary is
/// granularity, not authority.
pub proof fn capacity_is_always_orchestrator(kind: BlobKind, tier: Tier)
    ensures
        authority_of(kind, tier, Question::Capacity) == Authority::Orchestrator,
{
}

/// Allocation authority depends on the class alone, never on the tier it is asked about.
pub proof fn allocation_does_not_vary_by_tier(kind: BlobKind, t1: Tier, t2: Tier)
    ensures
        authority_of(kind, t1, Question::Allocation) == authority_of(kind, t2, Question::Allocation),
{
}

/// Kv blocks and weight shards are allocated by the engine in every tier; snapshots and
/// service heaps by the orchestrator in every tier.
pub proof fn allocation_splits_by_class(kind: BlobKind, tier: Tier)
    ensures
        (authority_of(kind, tier, Question::Allocation) == Authority::Engine) == (kind
            == BlobKind::KvBlock || kind == BlobKind::WeightShard),
{
}

} // verus!
