use polyphonic::blob::BlobKind;
use polyphonic::cache::accelerated;
use polyphonic::own::{authority, Authority, Question};
use polyphonic::tier::Tier;

use Authority::{Engine, Orchestrator};
use BlobKind::{KvBlock, ServiceHeap, Snapshot, WeightShard};
use Question::{Allocation, Capacity};
use Tier::{Ddr, Hbm, Nvme};

#[test]
fn kvblock_hbm_capacity_is_the_partition_the_orchestrator_sizes() {
    assert_eq!(authority(KvBlock, Hbm, Capacity), Orchestrator);
}

#[test]
fn kvblock_hbm_allocation_is_the_engines_block_manager() {
    assert_eq!(authority(KvBlock, Hbm, Allocation), Engine);
}

#[test]
fn kvblock_ddr_capacity_is_the_orchestrators_ddr_quota() {
    assert_eq!(authority(KvBlock, Ddr, Capacity), Orchestrator);
}

#[test]
fn kvblock_ddr_allocation_follows_the_offload_connector() {
    assert_eq!(authority(KvBlock, Ddr, Allocation), Engine);
}

#[test]
fn kvblock_nvme_capacity_is_the_orchestrators_spill_file() {
    assert_eq!(authority(KvBlock, Nvme, Capacity), Orchestrator);
}

#[test]
fn kvblock_nvme_allocation_follows_the_connector_per_phase1_1_3() {
    assert_eq!(authority(KvBlock, Nvme, Allocation), Engine);
}

#[test]
fn weightshard_hbm_capacity_is_orchestrator() {
    assert_eq!(authority(WeightShard, Hbm, Capacity), Orchestrator);
}

#[test]
fn weightshard_hbm_allocation_is_engine_once_loaded() {
    assert_eq!(authority(WeightShard, Hbm, Allocation), Engine);
}

#[test]
fn weightshard_ddr_capacity_is_orchestrator() {
    assert_eq!(authority(WeightShard, Ddr, Capacity), Orchestrator);
}

#[test]
fn weightshard_ddr_allocation_is_engine() {
    assert_eq!(authority(WeightShard, Ddr, Allocation), Engine);
}

#[test]
fn weightshard_nvme_capacity_is_orchestrator() {
    assert_eq!(authority(WeightShard, Nvme, Capacity), Orchestrator);
}

#[test]
fn weightshard_nvme_allocation_is_engine() {
    assert_eq!(authority(WeightShard, Nvme, Allocation), Engine);
}

#[test]
fn snapshot_is_orchestrator_outright_in_every_tier_and_question() {
    for tier in [Hbm, Ddr, Nvme] {
        assert_eq!(authority(Snapshot, tier, Capacity), Orchestrator);
        assert_eq!(authority(Snapshot, tier, Allocation), Orchestrator);
    }
}

#[test]
fn serviceheap_is_orchestrator_outright_in_every_tier_and_question() {
    for tier in [Hbm, Ddr, Nvme] {
        assert_eq!(authority(ServiceHeap, tier, Capacity), Orchestrator);
        assert_eq!(authority(ServiceHeap, tier, Allocation), Orchestrator);
    }
}

#[test]
fn capacity_authority_is_uniformly_orchestrator() {
    for kind in BlobKind::ALL {
        for tier in [Hbm, Ddr, Nvme] {
            assert_eq!(
                authority(kind, tier, Capacity),
                Orchestrator,
                "{kind:?} at {tier:?}"
            );
        }
    }
}

#[test]
fn accelerated_is_exactly_engine_allocation_authority() {
    for kind in BlobKind::ALL {
        for tier in [Hbm, Ddr, Nvme] {
            assert_eq!(
                accelerated(kind),
                authority(kind, tier, Allocation) == Engine,
                "{kind:?} at {tier:?}"
            );
        }
    }
}

#[test]
fn allocation_authority_does_not_yet_vary_by_tier() {
    for kind in BlobKind::ALL {
        let by_tier: Vec<Authority> = [Hbm, Ddr, Nvme]
            .into_iter()
            .map(|tier| authority(kind, tier, Allocation))
            .collect();
        assert!(
            by_tier.windows(2).all(|w| w[0] == w[1]),
            "{kind:?} allocation authority varies by tier: {by_tier:?}"
        );
    }
}

#[test]
fn blobkind_all_is_indexed_by_its_own_idx() {
    for (k, kind) in BlobKind::ALL.into_iter().enumerate() {
        assert_eq!(kind.idx(), k, "{kind:?}");
    }
}
