use polyphonic::blob::{root, BlobId, BlobKind, BlobMeta};
use polyphonic::cache::{
    accelerated, band_end, by_pool, could_admit, home_authority, need_of, pool_sums_fit,
    tier_of, Cost, EngineOps, LedgerOp, Occupancy, Quota, Reclaim,
};
use polyphonic::own::{Authority, Question};
use polyphonic::tier::Tier;
use polyphonic::work::{kv, KV_BLOCK_BYTES, KV_BLOCK_NS};

#[test]
fn open_quota_has_no_floors_and_capacity_limits() {
    let q = Quota::open(1_000, [0, 1, 2, 1]);
    for kind in BlobKind::ALL {
        assert_eq!(q.floor_of(kind), 0);
        assert_eq!(q.limit_of(kind), 1_000);
    }
    assert_eq!(q.band_of(BlobKind::WeightShard), 2);
    assert_eq!(q.max_band(), 2);
    assert!(!q.is_hard());
}

#[test]
fn soft_floors_share_the_slack_and_hard_floors_are_limits() {
    let soft = Quota::from_floors(3_000, [0, 1_500, 0, 500], [0; 4], false);
    assert_eq!(soft.floor_of(BlobKind::Snapshot), 1_500);
    assert_eq!(soft.limit_of(BlobKind::Snapshot), 2_500);
    assert_eq!(soft.limit_of(BlobKind::KvBlock), 1_000);
    assert_eq!(soft.limit_of(BlobKind::ServiceHeap), 1_500);

    let hard = Quota::from_floors(3_000, [0, 1_500, 0, 500], [0; 4], true);
    assert_eq!(hard.limit_of(BlobKind::Snapshot), 1_500);
    assert_eq!(hard.limit_of(BlobKind::KvBlock), 0);
    assert!(hard.is_hard());

    // Floors over capacity leave no slack.
    let over = Quota::from_floors(100, [80, 80, 0, 0], [0; 4], false);
    assert_eq!(over.limit_of(BlobKind::KvBlock), 80);
}

#[test]
fn offloading_moves_accelerated_classes_to_the_last_band() {
    let q = Quota::open(1_000, [0, 1, 2, 1]).offloaded();
    assert_eq!(q.band_of(BlobKind::KvBlock), 2);
    assert_eq!(q.band_of(BlobKind::WeightShard), 2);
    assert_eq!(q.band_of(BlobKind::Snapshot), 1);
    assert_eq!(q.band_of(BlobKind::ServiceHeap), 1);
    assert_eq!(q.max_band(), 2);
}

#[test]
fn occupancy_counts_bytes_per_class_and_in_total() {
    let mut o = Occupancy::new(1_000);
    o.charge(BlobKind::Snapshot, 300);
    o.charge(BlobKind::KvBlock, 200);
    assert_eq!(o.used(), 500);
    assert_eq!(o.resident_bytes(BlobKind::Snapshot), 300);
    assert_eq!(o.free_bytes(), 500);
    assert!(!o.over_capacity());
    o.release(BlobKind::Snapshot, 300);
    assert_eq!(o.used(), 200);
    assert_eq!(o.resident_bytes(BlobKind::Snapshot), 0);
    o.charge(BlobKind::ServiceHeap, 900);
    assert!(o.over_capacity());
    assert_eq!(o.free_bytes(), 0);
    o.clear();
    assert_eq!(o.used(), 0);
    assert_eq!(o.capacity(), 1_000);
}

#[test]
fn reclaimable_counts_burst_above_floors_except_service_heaps() {
    let q = Quota::from_floors(1_000, [100, 100, 0, 0], [0; 4], false);
    let mut o = Occupancy::new(1_000);
    o.charge(BlobKind::KvBlock, 300);
    o.charge(BlobKind::Snapshot, 50);
    o.charge(BlobKind::ServiceHeap, 400);
    // free 250 + kv burst 200 + snapshot under its floor 0 + service heap never counted.
    assert_eq!(o.reclaimable(&q), 450);
    assert!(o.reclaimable(&q) >= o.free_bytes());
}

#[test]
fn ceilings_and_fit_follow_the_quota() {
    let soft = Quota::from_floors(1_000, [0, 400, 0, 0], [0; 4], false);
    let hard = Quota::from_floors(1_000, [0, 400, 0, 0], [0; 4], true);
    let mut o = Occupancy::new(1_000);
    o.charge(BlobKind::KvBlock, 700);
    o.charge(BlobKind::Snapshot, 200);
    assert_eq!(o.ceiling(&soft, BlobKind::Snapshot), 1_000);
    assert_eq!(o.held(&soft, BlobKind::Snapshot), 900);
    assert!(o.fits(&soft, BlobKind::Snapshot, 100));
    assert!(!o.fits(&soft, BlobKind::Snapshot, 101));
    assert_eq!(o.ceiling(&hard, BlobKind::Snapshot), 400);
    assert_eq!(o.held(&hard, BlobKind::Snapshot), 200);
    assert!(o.fits(&hard, BlobKind::Snapshot, 200));
    assert!(!o.fits(&hard, BlobKind::Snapshot, 201));
}

#[test]
fn home_tier_is_the_accelerator_only_for_accelerated_classes_on_split_nodes() {
    for kind in BlobKind::ALL {
        assert_eq!(tier_of(false, kind), Tier::Ddr);
        let expect = if accelerated(kind) { Tier::Hbm } else { Tier::Ddr };
        assert_eq!(tier_of(true, kind), expect);
        for split in [false, true] {
            let engine = home_authority(split, kind, Question::Allocation) == Authority::Engine;
            assert_eq!(engine, accelerated(kind));
            assert_eq!(
                home_authority(split, kind, Question::Capacity),
                Authority::Orchestrator
            );
        }
    }
}

#[test]
fn needs_split_between_pools_only_on_split_nodes() {
    let need = [10, 20, 30, 40];
    assert_eq!(by_pool(true, &need), (40, 60));
    assert_eq!(by_pool(false, &need), (0, 100));
}

#[test]
fn cost_totals_exclude_execution_from_waiting() {
    let c = Cost {
        transfer_ns: 1,
        recompute_ns: 2,
        decide_ns: 3,
        queue_ns: 4,
        dispatch_ns: 5,
        exec_ns: 100,
        bytes_in: 7,
        pending: false,
    };
    assert_eq!(c.total_ns(), 15);
    assert_eq!(c.service_ns(), 115);
    assert_eq!(Cost::default().service_ns(), 0);
}

#[test]
fn engine_ops_total_sums_every_operation_of_a_class() {
    let mut e = EngineOps::default();
    e.admits[0] = 1;
    e.touch[0] = 2;
    e.anticipate[0] = 3;
    e.demote[0] = 4;
    e.forget_cold[0] = 5;
    e.superseded[0] = 6;
    e.spill[0] = 7;
    e.drain[0] = 8;
    e.admits[1] = 100;
    assert_eq!(e.total(BlobKind::KvBlock), 36);
    assert_eq!(e.total(BlobKind::Snapshot), 100);
    assert_eq!(e.total(BlobKind::ServiceHeap), 0);
}

#[test]
fn blob_identity_chains_through_blake3() {
    let a = BlobId::leaf(b"a");
    assert_eq!(a, BlobId::chain(root(), b"a"));
    assert_eq!(a.as_bytes(), blake3::hash(&[&[0u8; 32][..], b"a"].concat()).as_bytes());
    let b = BlobId::chain(a, b"b");
    assert_ne!(a, b);
    assert_ne!(b.as_bytes(), &[0u8; 32]);
    assert_ne!(b, BlobId::chain(root(), b"b"));
    assert!(root().is_root());
    assert!(!a.is_root());
}

#[test]
fn a_kv_block_under_the_root_has_no_parent() {
    let (first, meta) = kv(root(), b"t:0");
    assert_eq!(meta.parent, None::<BlobId>);
    assert_eq!(meta.kind, BlobKind::KvBlock);
    assert_eq!(meta.bytes, KV_BLOCK_BYTES);
    assert_eq!(meta.recompute_ns, KV_BLOCK_NS);
    let (second, meta2) = kv(first, b"t:1");
    assert_eq!(meta2.parent, Some(first));
    assert_eq!(second, BlobId::chain(first, b"t:1"));
    let _: BlobMeta = meta2;
}

#[test]
fn preemption_probes_classes_above_their_floor_most_sacrificial_band_first() {
    // Bands: kv 2, snapshot 0, weights 2, service 1. Floors: kv 100, snapshot 0, weights 400.
    let q = Quota::from_floors(2_000, [100, 0, 400, 0], [2, 0, 2, 1], false);
    let mut o = Occupancy::new(2_000);
    o.charge(BlobKind::KvBlock, 300);
    o.charge(BlobKind::Snapshot, 200);
    o.charge(BlobKind::WeightShard, 400);
    o.charge(BlobKind::ServiceHeap, 50);
    let order = o.preemption_order(&q);
    // Weights sit exactly at their floor and are never probed.
    assert_eq!(
        order,
        vec![(2, BlobKind::KvBlock), (1, BlobKind::ServiceHeap), (0, BlobKind::Snapshot)]
    );
    assert!(!o.recycles_own(&q, BlobKind::Snapshot));
}

#[test]
fn an_empty_pool_has_nothing_to_preempt() {
    let q = Quota::open(1_000, [0, 1, 2, 1]);
    let o = Occupancy::new(1_000);
    assert!(o.preemption_order(&q).is_empty());
}

#[test]
fn a_class_at_its_soft_limit_or_under_a_hard_quota_recycles_its_own_bytes() {
    let soft = Quota::from_floors(1_000, [0, 200, 0, 0], [0; 4], false);
    let mut o = Occupancy::new(1_000);
    o.charge(BlobKind::KvBlock, 799);
    // kv's soft limit is 0 + 800 of slack.
    assert!(!o.recycles_own(&soft, BlobKind::KvBlock));
    o.charge(BlobKind::KvBlock, 1);
    assert!(o.recycles_own(&soft, BlobKind::KvBlock));
    let hard = Quota::from_floors(1_000, [500, 500, 0, 0], [0; 4], true);
    let empty = Occupancy::new(1_000);
    assert!(empty.recycles_own(&hard, BlobKind::Snapshot));
}

#[test]
fn the_census_counts_engine_allocated_classes_only() {
    let mut ops = EngineOps::default();
    for split in [false, true] {
        assert!(ops.record(split, LedgerOp::Admit, BlobKind::KvBlock));
        assert!(ops.record(split, LedgerOp::Spill, BlobKind::WeightShard));
        assert!(!ops.record(split, LedgerOp::Admit, BlobKind::Snapshot));
        assert!(!ops.record(split, LedgerOp::Drain, BlobKind::ServiceHeap));
    }
    assert_eq!(ops.count(LedgerOp::Admit, BlobKind::KvBlock), 2);
    assert_eq!(ops.count(LedgerOp::Spill, BlobKind::WeightShard), 2);
    assert_eq!(ops.count(LedgerOp::Admit, BlobKind::Snapshot), 0);
    assert_eq!(ops.total(BlobKind::Snapshot), 0);
    assert_eq!(ops.total(BlobKind::ServiceHeap), 0);
    assert_eq!(ops.total(BlobKind::KvBlock), 2);
}

#[test]
fn a_node_admits_only_what_each_pool_can_make_room_for() {
    let need = [300, 100, 200, 50];
    let reserved = [100, 0, 0, 50];
    // Split: kv and weights go to the accelerator (300 + 200 + 100 reserved), the rest to host.
    assert!(could_admit(true, &need, &reserved, 600, 200));
    assert!(!could_admit(true, &need, &reserved, 599, 200));
    assert!(!could_admit(true, &need, &reserved, 600, 199));
    // Unified: everything lands in host memory.
    assert!(could_admit(false, &need, &reserved, 0, 800));
    assert!(!could_admit(false, &need, &reserved, 0, 799));
}

#[test]
fn needs_are_counted_per_class_over_blobs_not_already_held() {
    let meta = |kind: BlobKind, bytes: u64| BlobMeta {
        kind,
        bytes,
        parent: None,
        recompute_ns: 0,
    };
    let blobs = vec![
        (BlobId::leaf(b"a"), meta(BlobKind::KvBlock, 10)),
        (BlobId::leaf(b"b"), meta(BlobKind::Snapshot, 20)),
        (BlobId::leaf(b"c"), meta(BlobKind::KvBlock, 30)),
        (BlobId::leaf(b"d"), meta(BlobKind::ServiceHeap, 40)),
    ];
    assert_eq!(need_of(&blobs, &[false; 4]), [40, 20, 0, 40]);
    assert_eq!(need_of(&blobs, &[true, false, false, true]), [30, 20, 0, 0]);
}

#[test]
fn a_victim_larger_than_its_class_burst_is_not_offered() {
    // Snapshots hold 150 against a floor of 100: they are probed, but a 100-byte victim would
    // leave them at 50, so the band has nothing to offer; a 50-byte one leaves them at 100.
    let q = Quota::from_floors(1_000, [0, 100, 0, 0], [0, 1, 0, 0], false);
    let mut o = Occupancy::new(1_000);
    o.charge(BlobKind::Snapshot, 150);
    assert!(o.preemption_order(&q).contains(&(1, BlobKind::Snapshot)));
    assert!(!o.within_burst(&q, BlobKind::Snapshot, 100));
    assert_eq!(o.cheapest_probe(&q, &[(BlobKind::Snapshot, Some((1, 100)))]), None);
    assert!(o.within_burst(&q, BlobKind::Snapshot, 50));
    assert_eq!(
        o.cheapest_probe(&q, &[(BlobKind::Snapshot, Some((1, 50)))]),
        Some(BlobKind::Snapshot)
    );
    o.release(BlobKind::Snapshot, 50);
    assert_eq!(o.resident_bytes(BlobKind::Snapshot), q.floor_of(BlobKind::Snapshot));
}

#[test]
fn a_single_entry_above_the_floor_cannot_be_taken_for_another_class() {
    // One 2000-byte snapshot against a 1500 floor: its burst is 500, so reclaim for any other
    // class finds nothing to take and the admission waits.
    let q = Quota::from_floors(4_000, [0, 1_500, 0, 0], [0, 2, 0, 1], false);
    let mut o = Occupancy::new(2_000);
    o.charge(BlobKind::Snapshot, 2_000);
    assert_eq!(o.preemption_order(&q), vec![(2, BlobKind::Snapshot)]);
    assert_eq!(o.cheapest_probe(&q, &[(BlobKind::Snapshot, Some((0, 2_000)))]), None);
}

#[test]
fn within_a_band_the_lowest_rank_is_reclaimed_and_the_first_on_a_tie() {
    let q = Quota::open(1_000, [0; 4]);
    let mut o = Occupancy::new(1_000);
    o.charge(BlobKind::KvBlock, 100);
    o.charge(BlobKind::WeightShard, 100);
    o.charge(BlobKind::ServiceHeap, 100);
    let probes = [
        (BlobKind::KvBlock, Some((9, 10))),
        (BlobKind::Snapshot, None),
        (BlobKind::WeightShard, Some((4, 10))),
        (BlobKind::ServiceHeap, Some((4, 10))),
    ];
    assert_eq!(o.cheapest_probe(&q, &probes), Some(BlobKind::WeightShard));
    // The cheapest entry is too large for its class, so the next cheapest is taken.
    let probes = [
        (BlobKind::KvBlock, Some((9, 10))),
        (BlobKind::WeightShard, Some((4, 101))),
        (BlobKind::ServiceHeap, Some((5, 10))),
    ];
    assert_eq!(o.cheapest_probe(&q, &probes), Some(BlobKind::ServiceHeap));
    assert_eq!(o.cheapest_probe(&q, &[(BlobKind::KvBlock, None)]), None);
    assert_eq!(o.cheapest_probe(&q, &[]), None);
}

#[test]
fn admission_sums_are_checked_per_pool() {
    let big = u64::MAX / 2 + 1;
    // Split: kv and weights share the accelerator, so two halves of the range overflow there.
    assert!(!pool_sums_fit(true, &[big, 0, big, 0], &[0; 4]));
    // Unified: the same bytes land in host memory and overflow there too.
    assert!(!pool_sums_fit(false, &[big, 0, 0, 0], &[0, big, 0, 0]));
    // Split: one half in each pool adds up.
    assert!(pool_sums_fit(true, &[big, big, 0, 0], &[0; 4]));
    assert!(pool_sums_fit(true, &[300, 100, 200, 50], &[100, 0, 0, 50]));
}

#[test]
fn an_admission_fits_recycles_its_own_class_preempts_or_is_refused() {
    let soft = Quota::from_floors(1_000, [0, 200, 0, 0], [0; 4], false);
    let mut o = Occupancy::new(1_000);
    assert_eq!(o.reclaim(&soft, BlobKind::KvBlock, 1_001), Reclaim::Never);
    assert_eq!(o.reclaim(&soft, BlobKind::KvBlock, 1_000), Reclaim::Fits);
    o.charge(BlobKind::Snapshot, 300);
    o.charge(BlobKind::KvBlock, 600);
    // 200 more kv bytes do not fit; kv is under its soft limit of 800, so it may preempt.
    assert_eq!(o.reclaim(&soft, BlobKind::KvBlock, 200), Reclaim::Preempt);
    o.charge(BlobKind::KvBlock, 200);
    // At its limit it only recycles its own bytes.
    assert_eq!(o.reclaim(&soft, BlobKind::KvBlock, 100), Reclaim::OwnClass);
    let hard = Quota::from_floors(1_000, [500, 500, 0, 0], [0; 4], true);
    let mut p = Occupancy::new(1_000);
    p.charge(BlobKind::KvBlock, 500);
    assert_eq!(p.reclaim(&hard, BlobKind::KvBlock, 1), Reclaim::OwnClass);
    assert_eq!(p.reclaim(&hard, BlobKind::KvBlock, 501), Reclaim::Never);
}

#[test]
fn a_band_ends_where_the_next_band_begins() {
    let order = [
        (2, BlobKind::KvBlock),
        (2, BlobKind::WeightShard),
        (1, BlobKind::ServiceHeap),
        (0, BlobKind::Snapshot),
    ];
    assert_eq!(band_end(&order, 0), 2);
    assert_eq!(band_end(&order, 1), 2);
    assert_eq!(band_end(&order, 2), 3);
    assert_eq!(band_end(&order, 3), 4);
}
